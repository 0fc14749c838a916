//! The bot's session with the social site: the session cookies it picks
//! from a saved browser session, the cookie header it sends, and how it
//! recognises a reply that is a sign-in page instead of data.

use vstd::prelude::*;
use crate::models::auth::Cookie;
use crate::text::{
    chars_of, find, find_chars, occurs_at, push_str, str_eq, string_from_chars, sub_chars,
    trim_spec, trim_start_spec, trim_str, };

verus! {

/// The cookie that holds the profile session.
pub open spec fn profile_cookie_name() -> Seq<char> {
    seq!['p', 'r', 'o', 'f', 'i', 'l', 'e', '.', 's', 'i', 'd']
}

/// The cookie that holds the game session.
pub open spec fn beetle_cookie_name() -> Seq<char> {
    seq!['b', 'e', 'e', 't', 'l', 'e', '.', 's', 'i', 'd']
}

/// Which session cookie a saved session lacks.
#[derive(Debug, PartialEq, Eq, Structural, Clone, Copy)]
pub enum MissingCookie {
    ProfileSid,
    BeetleSid,
}

/// The value of the last cookie named `name` in `cookies`.
pub open spec fn last_cookie_value(cookies: Seq<Cookie>, name: Seq<char>) -> Option<Seq<char>>
    decreases cookies.len(),
{
    if cookies.len() == 0 {
        None
    } else if cookies.last().name@ == name {
        Some(cookies.last().value@)
    } else {
        last_cookie_value(cookies.drop_last(), name)
    }
}

/// The session cookies of a saved session: the last `profile.sid` and the
/// last `beetle.sid`, or the first of them that is missing.
pub open spec fn session_ids_spec(cookies: Seq<Cookie>) -> Result<(Seq<char>, Seq<char>), MissingCookie> {
    match last_cookie_value(cookies, profile_cookie_name()) {
        None => Err(MissingCookie::ProfileSid),
        Some(p) => match last_cookie_value(cookies, beetle_cookie_name()) {
            None => Err(MissingCookie::BeetleSid),
            Some(b) => Ok((p, b)),
        },
    }
}

/// Picks the session cookies out of a saved session.
pub fn session_ids(cookies: &Vec<Cookie>) -> (r: Result<(String, String), MissingCookie>)
    ensures
        match r {
            Ok((p, b)) => session_ids_spec(cookies@) == Ok::<(Seq<char>, Seq<char>), MissingCookie>((p@, b@)),
            Err(e) => session_ids_spec(cookies@) == Err::<(Seq<char>, Seq<char>), MissingCookie>(e),
        },
{
    let mut profile_sid: Option<String> = None;
    let mut beetle_sid: Option<String> = None;
    let mut i: usize = 0;
    proof {
        reveal_strlit("profile.sid");
        reveal_strlit("beetle.sid");
    }
    while i < cookies.len()
        invariant
            i <= cookies.len(),
            "profile.sid"@ == profile_cookie_name(),
            "beetle.sid"@ == beetle_cookie_name(),
            match profile_sid {
                Some(v) => last_cookie_value(cookies@.take(i as int), profile_cookie_name()) == Some(v@),
                None => last_cookie_value(cookies@.take(i as int), profile_cookie_name()) is None,
            },
            match beetle_sid {
                Some(v) => last_cookie_value(cookies@.take(i as int), beetle_cookie_name()) == Some(v@),
                None => last_cookie_value(cookies@.take(i as int), beetle_cookie_name()) is None,
            },
        decreases cookies.len() - i,
    {
        proof {
            assert(cookies@.take(i + 1).drop_last() == cookies@.take(i as int));
            assert(cookies@.take(i + 1).last() == cookies@[i as int]);
        }
        let name = cookies[i].name.as_str();
        if str_eq(name, "profile.sid") {
            profile_sid = Some(cookies[i].value.clone());
        } else if str_eq(name, "beetle.sid") {
            beetle_sid = Some(cookies[i].value.clone());
        }
        i = i + 1;
    }
    assert(cookies@.take(cookies.len() as int) == cookies@);
    match profile_sid {
        None => Err(MissingCookie::ProfileSid),
        Some(p) => match beetle_sid {
            None => Err(MissingCookie::BeetleSid),
            Some(b) => Ok((p, b)),
        },
    }
}

/// The cookie header the bot sends to the social site.
pub open spec fn cookie_header_spec(profile_sid: Seq<char>, beetle_sid: Seq<char>) -> Seq<char> {
    profile_cookie_name() + seq!['='] + profile_sid + seq![';', ' '] + beetle_cookie_name() + seq!['=']
        + beetle_sid
}

/// Builds `profile.sid=...; beetle.sid=...`.
pub fn cookie_header(profile_sid: &str, beetle_sid: &str) -> (r: String)
    ensures
        r@ == cookie_header_spec(profile_sid@, beetle_sid@),
{
    let mut s = String::new();
    proof {
        reveal_strlit("profile.sid=");
        reveal_strlit("; beetle.sid=");
    }
    push_str(&mut s, "profile.sid=");
    push_str(&mut s, profile_sid);
    push_str(&mut s, "; beetle.sid=");
    push_str(&mut s, beetle_sid);
    s
}

/// The auth token as saved: the file's text without surrounding white space.
pub fn auth_token_text(raw: &str) -> (r: String)
    ensures
        r@ == trim_spec(raw@),
{
    trim_str(raw)
}

/// Whether `pat` occurs in `s`.
pub open spec fn holds(s: Seq<char>, pat: Seq<char>) -> bool {
    find(s, pat) is Some
}

/// `pat` begins `s`.
pub open spec fn begins(s: Seq<char>, pat: Seq<char>) -> bool {
    pat.len() <= s.len() && s.take(pat.len() as int) == pat
}

/// A reply is a sign-in page, not data: after leading white space it opens
/// an HTML document, or it names the sign-in site or its page context.
pub open spec fn is_sso_redirect_spec(body: Seq<char>) -> bool {
    begins(trim_start_spec(body), "<!DOCTYPE html"@) || begins(trim_start_spec(body), "<html"@)
        || holds(body, "sso.remilia.org"@) || holds(body, "kcContext"@)
}

fn begins_with(s: &Vec<char>, from: usize, pat: &str) -> (r: bool)
    requires
        from <= s@.len(),
    ensures
        r == begins(s@.skip(from as int), pat@),
{
    let p = chars_of(pat);
    if p.len() > s.len() - from {
        return false;
    }
    let mut i: usize = 0;
    while i < p.len()
        invariant
            from <= s@.len(),
            p@ == pat@,
            p.len() <= s.len() - from,
            i <= p.len(),
            forall|j: int| 0 <= j < i ==> s@[from + j] == p@[j],
        decreases p.len() - i,
    {
        if s[from + i] != p[i] {
            assert(p@ == pat@);
            assert(p@[i as int] != s@[from + i]);
            assert(s@.skip(from as int)[i as int] == s@[from + i]);
            assert(s@.skip(from as int).take(p@.len() as int)[i as int] == s@[from + i]);
            return false;
        }
        i = i + 1;
    }
    assert(s@.skip(from as int).take(p@.len() as int) == p@);
    true
}

fn holds_text(s: &Vec<char>, pat: &str) -> (r: bool)
    ensures
        r == holds(s@, pat@),
{
    let p = chars_of(pat);
    find_chars(s, &p, 0).is_some()
}

/// Whether a reply is a sign-in page instead of data.
pub fn is_sso_redirect(body: &str) -> (r: bool)
    ensures
        r == is_sso_redirect_spec(body@),
{
    let cs = chars_of(body);
    let mut lo: usize = 0;
    assert(cs@.skip(0) == cs@);
    while lo < cs.len() && crate::text::is_white_char(cs[lo])
        invariant
            lo <= cs.len(),
            trim_start_spec(cs@) == trim_start_spec(cs@.skip(lo as int)),
        decreases cs.len() - lo,
    {
        assert(cs@.skip(lo as int).drop_first() == cs@.skip(lo + 1));
        lo = lo + 1;
    }
    assert(trim_start_spec(cs@.skip(lo as int)) == cs@.skip(lo as int));
    begins_with(&cs, lo, "<!DOCTYPE html") || begins_with(&cs, lo, "<html")
        || holds_text(&cs, "sso.remilia.org") || holds_text(&cs, "kcContext")
}

/// The text that opens the game session's value in a `Set-Cookie` header.
pub open spec fn beetle_assignment() -> Seq<char> {
    beetle_cookie_name() + seq!['=']
}

/// The game session in a `Set-Cookie` header: the text after the first
/// `beetle.sid=` up to the next `;` or the end.
pub open spec fn beetle_sid_from_header_spec(header: Seq<char>) -> Option<Seq<char>> {
    match find(header, beetle_assignment()) {
        None => None,
        Some(start) => {
            let from = start + beetle_assignment().len();
            match find(header.skip(from), seq![';']) {
                Some(i) => Some(header.subrange(from, from + i)),
                None => Some(header.skip(from)),
            }
        },
    }
}

/// Reads the game session out of a `Set-Cookie` header.
pub fn beetle_sid_from_header(header: &str) -> (r: Option<String>)
    ensures
        match r {
            Some(v) => beetle_sid_from_header_spec(header@) == Some(v@),
            None => beetle_sid_from_header_spec(header@) is None,
        },
{
    let cs = chars_of(header);
    let pat = vec!['b', 'e', 'e', 't', 'l', 'e', '.', 's', 'i', 'd', '='];
    assert(pat@ == beetle_assignment());
    match find_chars(&cs, &pat, 0) {
        None => None,
        Some(start) => {
            assert(beetle_assignment().len() == 11);
            assert(occurs_at(cs@, pat@, start as int));
            let n = cs.len();
            assert(start + 11 <= n);
            let from = start + 11;
            let rest = sub_chars(&cs, from, cs.len());
            assert(rest@ == header@.skip(from as int));
            let semi = vec![';'];
            assert(semi@ == seq![';']);
            match find_chars(&rest, &semi, 0) {
                Some(i) => {
                    let v = sub_chars(&cs, from, from + i);
                    Some(string_from_chars(&v))
                },
                None => Some(string_from_chars(&rest)),
            }
        },
    }
}

/// The part of a `Set-Cookie` header before its first `;`.
pub open spec fn first_segment(header: Seq<char>) -> Seq<char> {
    match find(header, seq![';']) {
        Some(i) => header.take(i),
        None => header,
    }
}

/// The new value a `Set-Cookie` header gives the cookie whose assignment
/// (`NAME=`) is `assignment`: when the header mentions the assignment and
/// its first segment begins with it, the rest of that segment.
pub open spec fn renewed_value(header: Seq<char>, assignment: Seq<char>) -> Option<Seq<char>> {
    if holds(header, assignment) && begins(first_segment(header), assignment) {
        Some(first_segment(header).skip(assignment.len() as int))
    } else {
        None
    }
}

fn renewed(cs: &Vec<char>, head: &Vec<char>, assignment: &str) -> (r: Option<String>)
    requires
        head@ == first_segment(cs@),
    ensures
        match r {
            Some(v) => renewed_value(cs@, assignment@) == Some(v@),
            None => renewed_value(cs@, assignment@) is None,
        },
{
    if holds_text(cs, assignment) && begins_with(head, 0, assignment) {
        assert(head@.skip(0) == head@);
        let n = assignment.unicode_len();
        let v = sub_chars(head, n, head.len());
        assert(v@ == head@.skip(n as int));
        Some(string_from_chars(&v))
    } else {
        assert(head@.skip(0) == head@);
        None
    }
}

/// The session cookies a `Set-Cookie` header renews: the new `profile.sid`
/// and the new `beetle.sid`, each when the header gives one.
pub fn renewed_session(header: &str) -> (r: (Option<String>, Option<String>))
    ensures
        match r.0 {
            Some(v) => renewed_value(header@, "profile.sid="@) == Some(v@),
            None => renewed_value(header@, "profile.sid="@) is None,
        },
        match r.1 {
            Some(v) => renewed_value(header@, "beetle.sid="@) == Some(v@),
            None => renewed_value(header@, "beetle.sid="@) is None,
        },
{
    let cs = chars_of(header);
    let semi = vec![';'];
    assert(semi@ == seq![';']);
    let head = match find_chars(&cs, &semi, 0) {
        Some(i) => {
            proof {
                crate::text::lemma_find_from_bounds(cs@, seq![';'], 0);
            }
            sub_chars(&cs, 0, i)
        },
        None => sub_chars(&cs, 0, cs.len()),
    };
    assert(cs@.subrange(0, cs@.len() as int) == cs@);
    (renewed(&cs, &head, "profile.sid="), renewed(&cs, &head, "beetle.sid="))
}

} // verus!
