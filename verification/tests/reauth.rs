use beetle_hunt::reauth::{
    auth_token_from_reply, token_from_field, TokenReadError, bearer_token, beetle_cookie_from_header, browser_session_cookies, first_named, is_sso_redirect,
    last_named, profile_cookie_header, saved_cookie, BrowserCookie, ReauthConfig,
    DEFAULT_CHROMEDRIVER_URL, DEFAULT_CHROME_BINARY,
};

fn cookie(name: &str, value: &str) -> BrowserCookie {
    BrowserCookie {
        name: name.to_string(),
        value: value.to_string(),
        domain: None,
        path: None,
        secure: None,
        same_site: None,
        expiry: None,
    }
}

#[test]
fn settings_fall_back_to_the_usual_places() {
    let c = ReauthConfig::from_values("a@b.c".to_string(), "pw".to_string(), None, None);
    assert_eq!(c.email, "a@b.c");
    assert_eq!(c.password, "pw");
    assert_eq!(c.chrome_binary_path, DEFAULT_CHROME_BINARY);
    assert_eq!(c.chromedriver_url, "http://localhost:9515");
    assert_eq!(DEFAULT_CHROMEDRIVER_URL, "http://localhost:9515");
    assert_eq!(
        DEFAULT_CHROME_BINARY,
        "/Applications/Google Chrome.app/Contents/MacOS/Google Chrome"
    );

    let c = ReauthConfig::from_values(
        String::new(),
        String::new(),
        Some("/usr/bin/chromium".to_string()),
        Some("http://localhost:4444".to_string()),
    );
    assert_eq!(c.chrome_binary_path, "/usr/bin/chromium");
    assert_eq!(c.chromedriver_url, "http://localhost:4444");
}

#[test]
fn the_last_session_cookie_counts_in_the_browser() {
    let cookies = vec![
        cookie("profile.sid", "p1"),
        cookie("_ga", "x"),
        cookie("beetle.sid", "b1"),
        cookie("profile.sid", "p2"),
    ];
    assert_eq!(browser_session_cookies(&cookies), (Some(3), Some(2)));
    assert_eq!(last_named(&cookies, "profile.sid"), Some(3));
    assert_eq!(first_named(&cookies, "profile.sid"), Some(0));
    assert_eq!(first_named(&cookies, "beetle.sid"), Some(2));
    assert_eq!(last_named(&cookies, "theme"), None);
    assert_eq!(first_named(&cookies, "theme"), None);

    let only_profile = vec![cookie("profile.sid", "p")];
    assert_eq!(browser_session_cookies(&only_profile), (Some(0), None));
    assert_eq!(browser_session_cookies(&Vec::new()), (None, None));
}

#[test]
fn saved_cookies_fill_in_what_the_browser_left_out() {
    let bare = saved_cookie(&cookie("profile.sid", "abc"));
    assert_eq!(bare.name, "profile.sid");
    assert_eq!(bare.value, "abc");
    assert_eq!(bare.domain, ".remilia.com");
    assert_eq!(bare.path, "/");
    assert!(bare.secure);
    assert_eq!(bare.http_only, Some(true));
    assert_eq!(bare.same_site, "Lax");
    assert_eq!(bare.expiry, 0);

    let full = saved_cookie(&BrowserCookie {
        name: "beetle.sid".to_string(),
        value: "s%3Axyz".to_string(),
        domain: Some("www.remilia.com".to_string()),
        path: Some("/beetle".to_string()),
        secure: Some(false),
        same_site: Some("Strict".to_string()),
        expiry: Some(1_767_225_600),
    });
    assert_eq!(full.domain, "www.remilia.com");
    assert_eq!(full.path, "/beetle");
    assert!(!full.secure);
    assert_eq!(full.same_site, "Strict");
    assert_eq!(full.expiry, 1_767_225_600);
    assert_eq!(full.http_only, Some(true));

    let mut past = cookie("beetle.sid", "v");
    past.expiry = Some(-1);
    assert_eq!(saved_cookie(&past).expiry, u64::MAX);
    past.expiry = Some(i64::MIN);
    assert_eq!(saved_cookie(&past).expiry, 1u64 << 63);
}

#[test]
fn the_game_session_is_read_from_a_set_cookie_header() {
    let c = beetle_cookie_from_header("beetle.sid=s%3Aabc.def; Path=/; HttpOnly").unwrap();
    assert_eq!(c.name, "beetle.sid");
    assert_eq!(c.value, "s%3Aabc.def");
    assert_eq!(c.domain.as_deref(), Some(".remilia.com"));
    assert_eq!(c.path.as_deref(), Some("/"));
    assert_eq!(c.secure, Some(true));
    assert_eq!(c.same_site, None);
    assert_eq!(c.expiry, None);

    let tail = beetle_cookie_from_header("theme=dark, beetle.sid=xyz").unwrap();
    assert_eq!(tail.value, "xyz");
    assert!(beetle_cookie_from_header("profile.sid=abc; Path=/").is_none());
}

#[test]
fn requests_and_tokens_are_written_as_the_site_expects() {
    assert_eq!(profile_cookie_header("abc"), "profile.sid=abc");
    assert_eq!(bearer_token("eyJ.x.y"), "Bearer eyJ.x.y");
    assert!(is_sso_redirect("  <!DOCTYPE html><html>"));
    assert!(!is_sso_redirect("{\"token\":\"t\"}"));
}

#[test]
fn the_token_is_read_from_the_status_reply() {
    assert_eq!(auth_token_from_reply(r#"{"authenticated":true,"token":"abc.def"}"#), Ok("abc.def".to_string()));
    assert_eq!(auth_token_from_reply(r#"{"authenticated":true}"#), Err(TokenReadError::NoToken));
    assert_eq!(auth_token_from_reply(r#"{"token":5}"#), Err(TokenReadError::NoToken));
    assert_eq!(auth_token_from_reply("not json"), Err(TokenReadError::NotJson));
    assert_eq!(auth_token_from_reply("<!DOCTYPE html><html>"), Err(TokenReadError::SsoRedirect));
    assert_eq!(token_from_field(Some(Some("t".to_string()))), Ok("t".to_string()));
    assert_eq!(token_from_field(None), Err(TokenReadError::NotJson));
}
