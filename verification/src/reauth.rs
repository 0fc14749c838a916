//! Renewing the session once the token has expired: the settings of the
//! headless browser run, the session cookies picked from what the browser
//! holds, and the records saved for the next start.

use vstd::prelude::*;
use crate::bot::session::{beetle_cookie_name, beetle_sid_from_header, beetle_sid_from_header_spec, profile_cookie_name};
use crate::bot::session::is_sso_redirect_spec;
use crate::json::{json_string_field, json_string_field_of};
use crate::models::auth::Cookie;
use crate::text::{push_str, str_eq};

pub use crate::bot::session::is_sso_redirect;

verus! {

/// Where the browser is looked for when no path is configured.
pub const DEFAULT_CHROME_BINARY: &'static str = "/Applications/Google Chrome.app/Contents/MacOS/Google Chrome";

/// Where the browser driver is reached when no address is configured.
pub const DEFAULT_CHROMEDRIVER_URL: &'static str = "http://localhost:9515";

/// The domain given to a session cookie that the browser reported without one.
pub const SESSION_COOKIE_DOMAIN: &'static str = ".remilia.com";

/// The path given to a session cookie that the browser reported without one.
pub const SESSION_COOKIE_PATH: &'static str = "/";

/// The same-site policy saved for a cookie that the browser reported without one.
pub const SESSION_COOKIE_SAME_SITE: &'static str = "Lax";

/// Configuration for automatic re-authentication
pub struct ReauthConfig {
    pub email: String,
    pub password: String,
    pub chrome_binary_path: String,
    pub chromedriver_url: String,
}

/// `given`, or `default` when nothing was given.
pub open spec fn or_default(given: Option<String>, default: Seq<char>) -> Seq<char> {
    match given {
        Some(v) => v@,
        None => default,
    }
}

impl ReauthConfig {
    /// The settings from the configured values: the browser and its driver
    /// fall back to their usual places when not configured.
    pub fn from_values(
        email: String,
        password: String,
        chrome_binary_path: Option<String>,
        chromedriver_url: Option<String>,
    ) -> (r: Self)
        ensures
            r.email@ == email@,
            r.password@ == password@,
            r.chrome_binary_path@ == or_default(chrome_binary_path, DEFAULT_CHROME_BINARY@),
            r.chromedriver_url@ == or_default(chromedriver_url, DEFAULT_CHROMEDRIVER_URL@),
    {
        let chrome_binary_path = match chrome_binary_path {
            Some(p) => p,
            None => DEFAULT_CHROME_BINARY.to_owned(),
        };
        let chromedriver_url = match chromedriver_url {
            Some(u) => u,
            None => DEFAULT_CHROMEDRIVER_URL.to_owned(),
        };
        ReauthConfig { email, password, chrome_binary_path, chromedriver_url }
    }
}

/// A cookie as the browser reports it: everything but its name and value
/// may be missing.
#[derive(Clone)]
pub struct BrowserCookie {
    pub name: String,
    pub value: String,
    pub domain: Option<String>,
    pub path: Option<String>,
    pub secure: Option<bool>,
    /// The same-site policy by its name (`Strict`, `Lax`, ...).
    pub same_site: Option<String>,
    /// Seconds since the epoch.
    pub expiry: Option<i64>,
}

/// The cookie at index `i` is the last one named `name`.
pub open spec fn is_last_named(cookies: Seq<BrowserCookie>, name: Seq<char>, i: int) -> bool {
    &&& 0 <= i < cookies.len()
    &&& cookies[i].name@ == name
    &&& forall|j: int| i < j < cookies.len() ==> cookies[j].name@ != name
}

/// The cookie at index `i` is the first one named `name`.
pub open spec fn is_first_named(cookies: Seq<BrowserCookie>, name: Seq<char>, i: int) -> bool {
    &&& 0 <= i < cookies.len()
    &&& cookies[i].name@ == name
    &&& forall|j: int| 0 <= j < i ==> cookies[j].name@ != name
}

/// No cookie is named `name`.
pub open spec fn none_named(cookies: Seq<BrowserCookie>, name: Seq<char>) -> bool {
    forall|j: int| 0 <= j < cookies.len() ==> cookies[j].name@ != name
}

/// The index of the last cookie named `name`, which is the one that counts
/// when the browser reports a name twice.
pub fn last_named(cookies: &Vec<BrowserCookie>, name: &str) -> (r: Option<usize>)
    ensures
        match r {
            Some(i) => is_last_named(cookies@, name@, i as int),
            None => none_named(cookies@, name@),
        },
{
    let mut found: Option<usize> = None;
    let mut i: usize = 0;
    while i < cookies.len()
        invariant
            i <= cookies.len(),
            match found {
                Some(k) => k < i && cookies@[k as int].name@ == name@
                    && forall|j: int| k < j < i ==> cookies@[j].name@ != name@,
                None => forall|j: int| 0 <= j < i ==> cookies@[j].name@ != name@,
            },
        decreases cookies.len() - i,
    {
        if str_eq(cookies[i].name.as_str(), name) {
            found = Some(i);
        }
        i = i + 1;
    }
    found
}

/// The index of the first cookie named `name`.
pub fn first_named(cookies: &Vec<BrowserCookie>, name: &str) -> (r: Option<usize>)
    ensures
        match r {
            Some(i) => is_first_named(cookies@, name@, i as int),
            None => none_named(cookies@, name@),
        },
{
    let mut i: usize = 0;
    while i < cookies.len()
        invariant
            i <= cookies.len(),
            forall|j: int| 0 <= j < i ==> cookies@[j].name@ != name@,
        decreases cookies.len() - i,
    {
        if str_eq(cookies[i].name.as_str(), name) {
            return Some(i);
        }
        i = i + 1;
    }
    None
}

/// The session cookies in what the browser holds after signing in: the
/// last `profile.sid` and the last `beetle.sid`, each where there is one.
pub fn browser_session_cookies(cookies: &Vec<BrowserCookie>) -> (r: (Option<usize>, Option<usize>))
    ensures
        match r.0 {
            Some(i) => is_last_named(cookies@, profile_cookie_name(), i as int),
            None => none_named(cookies@, profile_cookie_name()),
        },
        match r.1 {
            Some(i) => is_last_named(cookies@, beetle_cookie_name(), i as int),
            None => none_named(cookies@, beetle_cookie_name()),
        },
{
    proof {
        reveal_strlit("profile.sid");
        reveal_strlit("beetle.sid");
        assert("profile.sid"@ =~= profile_cookie_name());
        assert("beetle.sid"@ =~= beetle_cookie_name());
    }
    (last_named(cookies, "profile.sid"), last_named(cookies, "beetle.sid"))
}

/// An expiry in seconds since the epoch as the saved record holds it: an
/// unsigned number, a negative one wrapping around as the cast does.
pub open spec fn saved_expiry(expiry: Option<i64>) -> int {
    match expiry {
        Some(e) => if e >= 0 { e as int } else { e + 0x1_0000_0000_0000_0000int },
        None => 0,
    }
}

/// The record saved for a session cookie: what the browser reported, with
/// the site's domain, the root path, a secure flag, the `Lax` policy and no
/// expiry where it reported nothing, and always HTTP-only.
pub fn saved_cookie(c: &BrowserCookie) -> (r: Cookie)
    ensures
        r.name@ == c.name@,
        r.value@ == c.value@,
        r.domain@ == or_default(c.domain, SESSION_COOKIE_DOMAIN@),
        r.path@ == or_default(c.path, SESSION_COOKIE_PATH@),
        r.secure == (match c.secure { Some(s) => s, None => true }),
        r.http_only == Some(true),
        r.same_site@ == or_default(c.same_site, SESSION_COOKIE_SAME_SITE@),
        r.expiry == saved_expiry(c.expiry),
{
    let domain = match &c.domain {
        Some(d) => d.clone(),
        None => SESSION_COOKIE_DOMAIN.to_owned(),
    };
    let path = match &c.path {
        Some(p) => p.clone(),
        None => SESSION_COOKIE_PATH.to_owned(),
    };
    let secure = match c.secure {
        Some(s) => s,
        None => true,
    };
    let same_site = match &c.same_site {
        Some(s) => s.clone(),
        None => SESSION_COOKIE_SAME_SITE.to_owned(),
    };
    let expiry: u64 = match c.expiry {
        Some(e) => if e >= 0 {
            e as u64
        } else {
            let below: i64 = -(e + 1);
            u64::MAX - (below as u64)
        },
        None => 0,
    };
    Cookie {
        name: c.name.clone(),
        value: c.value.clone(),
        domain,
        path,
        secure,
        http_only: Some(true),
        same_site,
        expiry,
    }
}

/// The game-session cookie read from a `Set-Cookie` header, when the header
/// sets one: named `beetle.sid`, on the site's domain and the root path,
/// secure, with no same-site policy and no expiry.
pub fn beetle_cookie_from_header(header: &str) -> (r: Option<BrowserCookie>)
    ensures
        match r {
            Some(c) => {
                &&& beetle_sid_from_header_spec(header@) == Some(c.value@)
                &&& c.name@ == beetle_cookie_name()
                &&& c.domain matches Some(d) && d@ == SESSION_COOKIE_DOMAIN@
                &&& c.path matches Some(p) && p@ == SESSION_COOKIE_PATH@
                &&& c.secure == Some(true)
                &&& c.same_site is None
                &&& c.expiry is None
            },
            None => beetle_sid_from_header_spec(header@) is None,
        },
{
    match beetle_sid_from_header(header) {
        Some(value) => {
            proof {
                reveal_strlit("beetle.sid");
            }
            Some(BrowserCookie {
                name: "beetle.sid".to_owned(),
                value,
                domain: Some(SESSION_COOKIE_DOMAIN.to_owned()),
                path: Some(SESSION_COOKIE_PATH.to_owned()),
                secure: Some(true),
                same_site: None,
                expiry: None,
            })
        },
        None => None,
    }
}

/// The cookie header of a request made with the profile session alone.
pub fn profile_cookie_header(profile_sid: &str) -> (r: String)
    ensures
        r@ == profile_cookie_name() + seq!['='] + profile_sid@,
{
    let mut s = String::new();
    proof {
        reveal_strlit("profile.sid=");
    }
    push_str(&mut s, "profile.sid=");
    push_str(&mut s, profile_sid);
    s
}

/// The token as the bot sends it and saves it: `Bearer ` and the token.
pub fn bearer_token(token: &str) -> (r: String)
    ensures
        r@ == seq!['B', 'e', 'a', 'r', 'e', 'r', ' '] + token@,
{
    let mut s = String::new();
    proof {
        reveal_strlit("Bearer ");
    }
    push_str(&mut s, "Bearer ");
    push_str(&mut s, token);
    s
}

/// Why no token could be read from the sign-in status reply.
#[derive(Debug, PartialEq, Eq, Structural, Clone, Copy)]
pub enum TokenReadError {
    /// The reply is still the sign-in page.
    SsoRedirect,
    /// The reply is not JSON.
    NotJson,
    /// The reply has no `token` string.
    NoToken,
}

/// The token in what the JSON reader made of the reply's `token` field.
pub open spec fn token_spec(field: Option<Option<Seq<char>>>) -> Result<Seq<char>, TokenReadError> {
    match field {
        None => Err(TokenReadError::NotJson),
        Some(None) => Err(TokenReadError::NoToken),
        Some(Some(t)) => Ok(t),
    }
}

/// The token of the sign-in status reply `body`: none when the reply is the
/// sign-in page; otherwise its `token` string.
pub open spec fn auth_token_reply_spec(body: Seq<char>) -> Result<Seq<char>, TokenReadError> {
    if is_sso_redirect_spec(body) {
        Err(TokenReadError::SsoRedirect)
    } else {
        token_spec(json_string_field_of(body, seq!['t', 'o', 'k', 'e', 'n']))
    }
}

/// Takes the token out of what the JSON reader made of the `token` field.
pub fn token_from_field(field: Option<Option<String>>) -> (r: Result<String, TokenReadError>)
    ensures
        token_spec(match field {
            None => None,
            Some(None) => Some(None),
            Some(Some(t)) => Some(Some(t@)),
        }) == match r { Ok(t) => Ok(t@), Err(e) => Err(e) },
{
    match field {
        None => Err(TokenReadError::NotJson),
        Some(None) => Err(TokenReadError::NoToken),
        Some(Some(t)) => Ok(t),
    }
}

/// Reads the new token from the sign-in status reply.
pub fn auth_token_from_reply(body: &str) -> (r: Result<String, TokenReadError>)
    ensures
        auth_token_reply_spec(body@) == match r { Ok(t) => Ok(t@), Err(e) => Err(e) },
{
    if is_sso_redirect(body) {
        return Err(TokenReadError::SsoRedirect);
    }
    proof {
        reveal_strlit("token");
        assert("token"@ =~= seq!['t', 'o', 'k', 'e', 'n']);
    }
    token_from_field(json_string_field(body, "token"))
}

} // verus!
