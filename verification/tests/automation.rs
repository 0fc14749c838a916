use beetle_hunt::automation::{
    claim_due, claim_view, collect_candidates, countdown_shows, countdown_step,
    extract_all_profiles_from_line, extract_second_profile, format_wait_time, friend_button,
    names_closed_window,
    ends_session, next_claim_check, page_kind, parse_time_to_seconds, poke_cooling, poke_usable,
    pre_session_plan, profile_url, reached_home, status_text, try_parse_time_to_seconds,
    ButtonState, ClaimAttempt, ClaimView, FriendButton, PageKind, PreSession,
    BEETLE_CLAIM_PERIOD_SECS,
};

#[test]
fn parses_claim_timers() {
    assert_eq!(parse_time_to_seconds("1h 50m"), Some(6_600));
    assert_eq!(parse_time_to_seconds("11h 27m 21s"), Some(41_241));
    assert_eq!(parse_time_to_seconds("  45s TO NEXT CLAIM "), Some(45));
    assert_eq!(parse_time_to_seconds("3m 5s to next claim"), Some(185));
    assert_eq!(parse_time_to_seconds("ready!"), None);
    assert_eq!(parse_time_to_seconds("0s"), None);
}

#[test]
fn timers_that_cannot_be_read() {
    // the `s` comes before the `m` it should follow
    assert_eq!(try_parse_time_to_seconds("5s 3m"), None);
    assert_eq!(try_parse_time_to_seconds("2h 1m"), Some(Some(7_260)));
    assert_eq!(try_parse_time_to_seconds("soon"), Some(None));
}

#[test]
fn status_text_falls_back_to_inner_html() {
    assert_eq!(status_text("  READY  ", None), "ready");
    assert_eq!(status_text("   ", Some("<B>1H</B>")), "<b>1h</b>");
    assert_eq!(status_text("", None), "");
}

#[test]
fn claim_views() {
    assert_eq!(claim_view("ready to claim"), ClaimView::Ready);
    assert_eq!(claim_view("1h 2m 3s to next claim"), ClaimView::Waiting(Some(3_723)));
    assert_eq!(claim_view("claimed"), ClaimView::Waiting(None));
    assert_eq!(claim_view("5s 3m"), ClaimView::Unreadable);
}

#[test]
fn pages_are_told_apart() {
    let home = "https://www.remilia.com/home";
    assert_eq!(page_kind("https://sso.remilia.org/realms/x", home), PageKind::SignIn);
    assert_eq!(page_kind("https://www.remilia.com/~alice", home), PageKind::Profile);
    assert_eq!(page_kind("https://www.remilia.com/home?tab=1", home), PageKind::Home);
    assert_eq!(page_kind("https://www.remilia.com/shop", home), PageKind::Elsewhere);
    assert!(reached_home("https://remilia.com/home"));
    assert!(reached_home("https://remilia.com/"));
    assert!(!reached_home("https://remilia.com/~bob"));
    assert!(!reached_home("about:blank"));
}

#[test]
fn closed_windows_are_recognised() {
    assert!(names_closed_window("UnknownCommand: target window already closed"));
    assert!(names_closed_window("NoSuchWindow(no such window)"));
    assert!(!names_closed_window("timeout"));
    assert!(ends_session("Browser window was closed during operation"));
    assert!(!ends_session("WebDriver error: stale element"));
}

fn button(displayed: bool, enabled: bool, state: &str, class: &str, text: &str) -> ButtonState {
    ButtonState {
        displayed,
        enabled,
        data_state: state.to_string(),
        class_name: class.to_string(),
        text: text.to_string(),
    }
}

#[test]
fn poke_buttons_are_judged() {
    assert!(poke_usable(&button(true, true, "can-poke", "btn poke", "Poke")));
    assert!(!poke_usable(&button(true, true, "can-poke", "btn poke poke-cooldown", "Poke")));
    assert!(!poke_usable(&button(true, true, "already-poked", "btn poke", "Poke")));
    assert!(!poke_usable(&button(false, true, "can-poke", "btn poke", "Poke")));
    assert!(poke_cooling("btn poke poke-cooldown", ""));
    assert!(poke_cooling("btn", "already-poked"));
    assert!(!poke_cooling("btn disabled", ""));
}

#[test]
fn friend_buttons_are_judged() {
    assert_eq!(friend_button(&button(true, true, "can-request", "btn friend", "Add")), FriendButton::Press);
    assert_eq!(friend_button(&button(true, true, "", "btn friend", "FRIENDS ✓")), FriendButton::Connected);
    assert_eq!(friend_button(&button(false, true, "pending-approval", "", "")), FriendButton::Connected);
    assert_eq!(friend_button(&button(true, false, "can-request", "", "Add")), FriendButton::Pass);
}

#[test]
fn profile_address() {
    assert_eq!(profile_url("~alice"), "https://remilia.com/~alice");
}

#[test]
fn second_profile_of_a_line() {
    let line = vec![Some(" alice ".to_string()), Some("bob".to_string()), Some("x".to_string())];
    assert_eq!(extract_second_profile(&line, "mao", &vec![]), Some("bob".to_string()));
    assert_eq!(extract_second_profile(&line, "mao", &vec!["bob".to_string()]), None);
    assert_eq!(extract_second_profile(&line, "alice", &vec![]), None);
    assert_eq!(extract_second_profile(&vec![Some("a".to_string())], "mao", &vec![]), None);
    let unreadable_first = vec![None, Some("carol".to_string())];
    assert_eq!(extract_second_profile(&unreadable_first, "mao", &vec![]), Some("carol".to_string()));
}

#[test]
fn all_profiles_of_a_line() {
    let line = vec![
        Some(" alice".to_string()),
        None,
        Some("mao".to_string()),
        Some("".to_string()),
        Some("bob".to_string()),
        Some("alice ".to_string()),
    ];
    assert_eq!(extract_all_profiles_from_line(&line, "mao"), vec!["alice".to_string(), "bob".to_string()]);
}

fn names(v: &[&str]) -> Vec<String> {
    v.iter().map(|s| s.to_string()).collect()
}

#[test]
fn candidates_are_collected_up_to_the_limit() {
    let lines = vec![names(&["a", "b"]), names(&["c", "a", "d"]), names(&["e"])];
    let scan = collect_candidates(&lines, &names(&["b"]), &names(&["c"]), 2);
    assert_eq!(scan.candidates, names(&["a", "c"]));
    assert_eq!(scan.new_count, 1);
    assert_eq!(scan.seen_count, 1);
    assert_eq!(scan.session_skips, 1);
    let all = collect_candidates(&lines, &vec![], &vec![], 10);
    assert_eq!(all.candidates, names(&["a", "b", "c", "d", "e"]));
    assert_eq!(all.new_count, 5);
}

#[test]
fn claim_timers_move_on() {
    assert!(claim_due(None, 5));
    assert!(claim_due(Some(5), 5));
    assert!(!claim_due(Some(6), 5));
    assert_eq!(next_claim_check(None, 100, ClaimAttempt::Claimed, BEETLE_CLAIM_PERIOD_SECS), Some(28_900));
    assert_eq!(next_claim_check(None, 100, ClaimAttempt::NotReady(Some(40)), 86_400), Some(140));
    assert_eq!(next_claim_check(Some(7), 100, ClaimAttempt::NotReady(None), 86_400), Some(7));
    assert_eq!(next_claim_check(Some(7), 100, ClaimAttempt::Failed, 86_400), Some(400));
}

#[test]
fn pre_session_plans() {
    assert_eq!(pre_session_plan((true, None), (false, Some(5))), PreSession::StartNow);
    assert_eq!(pre_session_plan((false, Some(50)), (false, Some(20))), PreSession::WaitThen(20));
    assert_eq!(pre_session_plan((false, None), (false, Some(20))), PreSession::WaitThen(20));
    assert_eq!(pre_session_plan((false, None), (false, None)), PreSession::NoCooldown);
}

#[test]
fn countdown_rhythm() {
    assert_eq!(countdown_step(301), 60);
    assert_eq!(countdown_step(300), 10);
    assert!(countdown_shows(120, 60));
    assert!(!countdown_shows(121, 60));
    assert!(countdown_shows(7, 60));
}

#[test]
fn wait_times_read_as_hours_minutes_seconds() {
    assert_eq!(format_wait_time(0), "0s");
    assert_eq!(format_wait_time(59), "59s");
    assert_eq!(format_wait_time(61), "1m 1s");
    assert_eq!(format_wait_time(3_600), "1h 0m 0s");
    assert_eq!(format_wait_time(41_241), "11h 27m 21s");
}
