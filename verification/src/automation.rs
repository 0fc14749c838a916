//! The decisions of the browser-driven session: reading the claim timers
//! shown on the page, telling pages apart by their address, judging the poke
//! and friend buttons, and choosing which profiles to visit.

use vstd::prelude::*;
use crate::text::{
    chars_of, find, find_chars, lemma_find_from_bounds, parse_u64_chars,
    parse_u64_spec, push_str, str_eq, string_from_chars, sub_chars, trim_chars, trim_spec,
};
use crate::bot::feed::{contains_name, names_view};
use crate::utils::{duration_text, format_duration};

verus! {

/// The lower-case form of a text, as `str::to_lowercase` gives it under the
/// Unicode case mapping.
pub uninterp spec fn lowercase(s: Seq<char>) -> Seq<char>;

/// `str::to_lowercase`. The Unicode lower-case mapping takes tables to
/// state, so its result is only named: it depends on the text alone.
#[verifier::external_body]
pub(crate) fn to_lowercase(s: &str) -> (r: String)
    ensures
        r@ == lowercase(s@),
{
    s.to_lowercase()
}

/// `s` with every occurrence of `pat` (found left to right, without
/// overlap) taken out, as `str::replace(pat, "")` gives it.
pub open spec fn remove_all(s: Seq<char>, pat: Seq<char>) -> Seq<char>
    decreases s.len(),
{
    if pat.len() == 0 {
        s
    } else {
        match find(s, pat) {
            None => s,
            Some(i) => {
                proof {
                    lemma_find_from_bounds(s, pat, 0);
                }
                s.take(i) + remove_all(s.skip(i + pat.len()), pat)
            },
        }
    }
}

/// Takes every occurrence of `pat` out of `s`.
pub fn remove_all_chars(s: &Vec<char>, pat: &Vec<char>) -> (r: Vec<char>)
    ensures
        r@ == remove_all(s@, pat@),
{
    if pat.len() == 0 {
        return sub_chars(s, 0, s.len());
    }
    let mut out: Vec<char> = Vec::new();
    let mut from: usize = 0;
    assert(s@.skip(0) == s@);
    loop
        invariant
            from <= s.len(),
            pat@.len() > 0,
            out@ + remove_all(s@.skip(from as int), pat@) == remove_all(s@, pat@),
        decreases s.len() - from,
    {
        let rest = sub_chars(s, from, s.len());
        assert(rest@ == s@.skip(from as int));
        match find_chars(&rest, pat, 0) {
            None => {
                let mut tail = rest;
                out.append(&mut tail);
                return out;
            },
            Some(i) => {
                proof {
                    lemma_find_from_bounds(rest@, pat@, 0);
                    assert(rest@.skip(i + pat@.len()) == s@.skip(from + i + pat@.len()));
                }
                let mut head = sub_chars(&rest, 0, i);
                assert(head@ == rest@.take(i as int));
                out.append(&mut head);
                from = from + i + pat.len();
            },
        }
    }
}

/// The position of the first `c` in `s`.
pub open spec fn first_of(s: Seq<char>, c: char) -> Option<int> {
    find(s, seq![c])
}

/// The hours, minutes or seconds figure of a claim timer: the text between
/// `start` and the unit's letter, trimmed, read as a number; zero when it is
/// not a number.
pub open spec fn figure(t: Seq<char>, start: int, end: int) -> int {
    match parse_u64_spec(trim_spec(t.subrange(start, end))) {
        Some(v) => v as int,
        None => 0,
    }
}

/// Where the minutes figure starts: after the `h`, if there is one.
pub open spec fn minutes_start(t: Seq<char>) -> int {
    match first_of(t, 'h') {
        Some(h) => h + 1,
        None => 0,
    }
}

/// Where the seconds figure starts: after the `m`, else after the `h`.
pub open spec fn seconds_start(t: Seq<char>) -> int {
    match first_of(t, 'm') {
        Some(m) => m + 1,
        None => minutes_start(t),
    }
}

/// The seconds a claim timer such as `11h 27m 21s` stands for: each figure
/// before the first `h`, `m` and `s`.
pub open spec fn timer_total(t: Seq<char>) -> int {
    (match first_of(t, 'h') {
        Some(h) => figure(t, 0, h) * 3600,
        None => 0,
    }) + (match first_of(t, 'm') {
        Some(m) => figure(t, minutes_start(t), m) * 60,
        None => 0,
    }) + (match first_of(t, 's') {
        Some(s) => figure(t, seconds_start(t), s),
        None => 0,
    })
}

/// The timer can be read: each figure's start comes no later than its
/// letter, and the total fits in 64 bits.
pub open spec fn timer_readable(t: Seq<char>) -> bool {
    &&& (first_of(t, 'm') matches Some(m) ==> minutes_start(t) <= m)
    &&& (first_of(t, 's') matches Some(s) ==> seconds_start(t) <= s)
    &&& timer_total(t) <= u64::MAX
}

/// The seconds a timer stands for, when more than none.
pub open spec fn timer_seconds(t: Seq<char>) -> Option<u64> {
    if timer_total(t) > 0 { Some(timer_total(t) as u64) } else { None }
}

/// The claim text as the timer is read from it: trimmed, in lower case,
/// without `to next claim`, trimmed again.
pub open spec fn timer_text(s: Seq<char>) -> Seq<char> {
    trim_spec(remove_all(lowercase(trim_spec(s)), "to next claim"@))
}

fn first_char(s: &Vec<char>, c: char) -> (r: Option<usize>)
    ensures
        r matches Some(i) ==> first_of(s@, c) == Some(i as int) && i < s@.len(),
        r is None <==> first_of(s@, c) is None,
{
    let p = vec![c];
    assert(p@ == seq![c]);
    let r = find_chars(s, &p, 0);
    proof {
        lemma_find_from_bounds(s@, seq![c], 0);
    }
    r
}

fn read_figure(t: &Vec<char>, start: usize, end: usize) -> (r: u64)
    requires
        start <= end <= t@.len(),
    ensures
        r == figure(t@, start as int, end as int),
{
    let part = sub_chars(t, start, end);
    let trimmed = trim_chars(&part);
    match parse_u64_chars(&trimmed, 0, trimmed.len()) {
        Some(v) => {
            assert(trimmed@.subrange(0, trimmed@.len() as int) == trimmed@);
            v
        },
        None => {
            assert(trimmed@.subrange(0, trimmed@.len() as int) == trimmed@);
            0
        },
    }
}

/// Reads a prepared claim timer (see `timer_text`).
pub fn read_timer(t: &Vec<char>) -> (r: Option<u64>)
    requires
        timer_readable(t@),
    ensures
        r == timer_seconds(t@),
{
    let mut total: u64 = 0;
    let h = first_char(t, 'h');
    if let Some(hp) = h {
        let hours = read_figure(t, 0, hp);
        total = hours * 3600;
    }
    let m = first_char(t, 'm');
    if let Some(mp) = m {
        let start = match h {
            Some(hp) => hp + 1,
            None => 0,
        };
        let minutes = read_figure(t, start, mp);
        total = total + minutes * 60;
    }
    let s = first_char(t, 's');
    if let Some(sp) = s {
        let start = match m {
            Some(mp) => mp + 1,
            None => match h {
                Some(hp) => hp + 1,
                None => 0,
            },
        };
        let seconds = read_figure(t, start, sp);
        total = total + seconds;
    }
    if total > 0 {
        Some(total)
    } else {
        None
    }
}

/// Prepares a claim text for reading (see `timer_text`).
pub fn prepare_timer_text(time_str: &str) -> (r: Vec<char>)
    ensures
        r@ == timer_text(time_str@),
{
    let cs = chars_of(time_str);
    let first = trim_chars(&cs);
    let first_s = string_from_chars(&first);
    let lower = to_lowercase(first_s.as_str());
    let lower_cs = chars_of(lower.as_str());
    let pat = chars_of("to next claim");
    let removed = remove_all_chars(&lower_cs, &pat);
    trim_chars(&removed)
}

/// The seconds a claim text such as `11h 27m 21s to next claim` stands for;
/// `None` when it stands for none.
pub fn parse_time_to_seconds(time_str: &str) -> (r: Option<u64>)
    requires
        timer_readable(timer_text(time_str@)),
    ensures
        r == timer_seconds(timer_text(time_str@)),
{
    let t = prepare_timer_text(time_str);
    read_timer(&t)
}

/// As `parse_time_to_seconds`, for any text: `None` when its timer cannot
/// be read, otherwise what it reads.
pub fn try_parse_time_to_seconds(time_str: &str) -> (r: Option<Option<u64>>)
    ensures
        r is None <==> !timer_readable(timer_text(time_str@)),
        r matches Some(v) ==> v == timer_seconds(timer_text(time_str@)),
{
    let t = prepare_timer_text(time_str);
    if timer_is_readable(&t) {
        Some(read_timer(&t))
    } else {
        None
    }
}

/// Whether a prepared timer can be read.
pub fn timer_is_readable(t: &Vec<char>) -> (r: bool)
    ensures
        r == timer_readable(t@),
{
    if t.len() == 0 {
        return true;
    }
    let h = first_char(t, 'h');
    let m = first_char(t, 'm');
    let s = first_char(t, 's');
    let mstart: usize = match h {
        Some(hp) => hp + 1,
        None => 0,
    };
    let sstart: usize = match m {
        Some(mp) => mp + 1,
        None => mstart,
    };
    if let Some(mp) = m {
        if mstart > mp {
            return false;
        }
    }
    if let Some(sp) = s {
        if sstart > sp {
            return false;
        }
    }
    let hours: u128 = match h {
        Some(hp) => read_figure(t, 0, hp) as u128,
        None => 0,
    };
    let minutes: u128 = match m {
        Some(mp) => read_figure(t, mstart, mp) as u128,
        None => 0,
    };
    let seconds: u128 = match s {
        Some(sp) => read_figure(t, sstart, sp) as u128,
        None => 0,
    };
    hours * 3600 + minutes * 60 + seconds <= 18446744073709551615u128
}

/// Whether `pat` occurs in `s`.
pub open spec fn mentions(s: Seq<char>, pat: Seq<char>) -> bool {
    find(s, pat) is Some
}

fn mentions_text(s: &Vec<char>, pat: &str) -> (r: bool)
    ensures
        r == mentions(s@, pat@),
{
    let p = chars_of(pat);
    find_chars(s, &p, 0).is_some()
}

/// The status shown under a claim, as it is judged: the element's text,
/// trimmed; when that is empty, the element's inner HTML if it could be
/// read; in lower case either way.
pub open spec fn status_text_spec(text: Seq<char>, inner_html: Option<Seq<char>>) -> Seq<char> {
    if trim_spec(text).len() == 0 {
        match inner_html {
            Some(h) => lowercase(h),
            None => lowercase(trim_spec(text)),
        }
    } else {
        lowercase(trim_spec(text))
    }
}

/// Builds the status shown under a claim, as it is judged.
pub fn status_text(text: &str, inner_html: Option<&str>) -> (r: String)
    ensures
        r@ == status_text_spec(text@, match inner_html { Some(h) => Some(h@), None => None }),
{
    let cs = chars_of(text);
    let t = trim_chars(&cs);
    let trimmed = string_from_chars(&t);
    if t.len() == 0 {
        match inner_html {
            Some(h) => to_lowercase(h),
            None => to_lowercase(trimmed.as_str()),
        }
    } else {
        to_lowercase(trimmed.as_str())
    }
}

/// What a claim's status says.
#[derive(Debug, PartialEq, Eq, Structural, Clone, Copy)]
pub enum ClaimView {
    /// The claim is ready.
    Ready,
    /// Not ready; the timer's seconds, when it shows any.
    Waiting(Option<u64>),
    /// Not ready, and its timer cannot be read.
    Unreadable,
}

/// What the (judged) status `status` says: ready when it mentions `ready`,
/// otherwise the wait its timer shows.
pub open spec fn claim_view_spec(status: Seq<char>) -> ClaimView {
    if mentions(status, "ready"@) {
        ClaimView::Ready
    } else if timer_readable(timer_text(status)) {
        ClaimView::Waiting(timer_seconds(timer_text(status)))
    } else {
        ClaimView::Unreadable
    }
}

/// Reads a claim's status.
pub fn claim_view(status: &str) -> (r: ClaimView)
    ensures
        r == claim_view_spec(status@),
{
    let cs = chars_of(status);
    if mentions_text(&cs, "ready") {
        ClaimView::Ready
    } else {
        match try_parse_time_to_seconds(status) {
            Some(w) => ClaimView::Waiting(w),
            None => ClaimView::Unreadable,
        }
    }
}

/// The kind of page the browser shows.
#[derive(Debug, PartialEq, Eq, Structural, Clone, Copy)]
pub enum PageKind {
    /// The sign-in site.
    SignIn,
    /// A user's profile.
    Profile,
    /// Some page that is not the home page.
    Elsewhere,
    /// The home page.
    Home,
}

/// The kind of the page at `url`, given the home page's address.
pub open spec fn page_kind_spec(url: Seq<char>, home_url: Seq<char>) -> PageKind {
    if mentions(url, "sso.remilia.org"@) {
        PageKind::SignIn
    } else if mentions(url, "remilia.com/~"@) {
        PageKind::Profile
    } else if !(home_url.len() <= url.len() && url.take(home_url.len() as int) == home_url) {
        PageKind::Elsewhere
    } else {
        PageKind::Home
    }
}

/// Tells what page the browser shows.
pub fn page_kind(url: &str, home_url: &str) -> (r: PageKind)
    ensures
        r == page_kind_spec(url@, home_url@),
{
    let u = chars_of(url);
    let h = chars_of(home_url);
    if mentions_text(&u, "sso.remilia.org") {
        PageKind::SignIn
    } else if mentions_text(&u, "remilia.com/~") {
        PageKind::Profile
    } else if h.len() > u.len() {
        PageKind::Elsewhere
    } else {
        let head = sub_chars(&u, 0, h.len());
        assert(head@ == u@.take(h@.len() as int));
        let mut same = true;
        let mut i: usize = 0;
        while i < h.len()
            invariant
                i <= h.len(),
                h.len() == head.len(),
                same == (forall|j: int| 0 <= j < i ==> head@[j] == h@[j]),
            decreases h.len() - i,
        {
            if head[i] != h[i] {
                same = false;
            }
            i = i + 1;
        }
        proof {
            if same {
                assert(head@ =~= h@);
            } else {
                let j = choose|j: int| 0 <= j < h@.len() && head@[j] != h@[j];
                assert(head@[j] != h@[j]);
            }
        }
        if same { PageKind::Home } else { PageKind::Elsewhere }
    }
}

/// Navigation reached the home page: its address names the home page, or
/// names the site but no profile.
pub open spec fn reached_home_spec(url: Seq<char>) -> bool {
    mentions(url, "remilia.com/home"@) || (!mentions(url, "remilia.com/~"@) && mentions(url, "remilia.com"@))
}

/// Whether navigation reached the home page.
pub fn reached_home(url: &str) -> (r: bool)
    ensures
        r == reached_home_spec(url@),
{
    let u = chars_of(url);
    mentions_text(&u, "remilia.com/home") || (!mentions_text(&u, "remilia.com/~") && mentions_text(&u, "remilia.com"))
}

/// A browser error that means the window is gone: its text names a closed
/// window, a missing web view, or no such window.
pub open spec fn names_closed_window_spec(text: Seq<char>) -> bool {
    mentions(text, "target window already closed"@) || mentions(text, "web view not found"@)
        || mentions(text, "no such window"@)
}

/// Whether a browser error's text means the window is gone.
pub fn names_closed_window(text: &str) -> (r: bool)
    ensures
        r == names_closed_window_spec(text@),
{
    let t = chars_of(text);
    mentions_text(&t, "target window already closed") || mentions_text(&t, "web view not found")
        || mentions_text(&t, "no such window")
}

/// A session error that ends the session quietly: the browser was closed.
pub open spec fn ends_session_spec(message: Seq<char>) -> bool {
    mentions(message, "Browser window was closed"@) || mentions(message, "Browser appears to be closed"@)
}

/// Whether a session error means the browser was closed.
pub fn ends_session(message: &str) -> (r: bool)
    ensures
        r == ends_session_spec(message@),
{
    let t = chars_of(message);
    mentions_text(&t, "Browser window was closed") || mentions_text(&t, "Browser appears to be closed")
}

/// What the page shows of a button.
pub struct ButtonState {
    pub displayed: bool,
    pub enabled: bool,
    pub data_state: String,
    pub class_name: String,
    pub text: String,
}

/// A poke button can be pressed: shown, enabled, and not cooling down (by
/// its class or its state).
pub open spec fn poke_usable_spec(b: ButtonState) -> bool {
    b.displayed && b.enabled && !(mentions(b.class_name@, "poke-cooldown"@)
        || mentions(b.class_name@, "disabled"@) || b.data_state@ == "already-poked"@)
}

/// Whether a poke button can be pressed.
pub fn poke_usable(b: &ButtonState) -> (r: bool)
    ensures
        r == poke_usable_spec(*b),
{
    let class = chars_of(b.class_name.as_str());
    let cooling = mentions_text(&class, "poke-cooldown") || mentions_text(&class, "disabled")
        || str_eq(b.data_state.as_str(), "already-poked");
    b.displayed && b.enabled && !cooling
}

/// A poke button shows the user is cooling down.
pub open spec fn poke_cooling_spec(class_name: Seq<char>, data_state: Seq<char>) -> bool {
    mentions(class_name, "poke-cooldown"@) || data_state == "already-poked"@
}

/// Whether a poke button shows the user is cooling down.
pub fn poke_cooling(class_name: &str, data_state: &str) -> (r: bool)
    ensures
        r == poke_cooling_spec(class_name@, data_state@),
{
    let class = chars_of(class_name);
    mentions_text(&class, "poke-cooldown") || str_eq(data_state, "already-poked")
}

/// What to do with a friend button.
#[derive(Debug, PartialEq, Eq, Structural, Clone, Copy)]
pub enum FriendButton {
    /// Press it.
    Press,
    /// Already friends, or a request is pending: nothing to do.
    Connected,
    /// Not usable; try the next way of finding it.
    Pass,
}

/// The verdict on a friend button: connected when its state says friends or
/// pending, or its text mentions friends; pressed when shown and enabled.
pub open spec fn friend_button_spec(b: ButtonState) -> FriendButton {
    let connected = b.data_state@ == "already-friends"@ || b.data_state@ == "pending-approval"@
        || mentions(lowercase(b.text@), "friends"@);
    if b.displayed && b.enabled && !connected {
        FriendButton::Press
    } else if connected {
        FriendButton::Connected
    } else {
        FriendButton::Pass
    }
}

/// Judges a friend button.
pub fn friend_button(b: &ButtonState) -> (r: FriendButton)
    ensures
        r == friend_button_spec(*b),
{
    let lower = to_lowercase(b.text.as_str());
    let lower_cs = chars_of(lower.as_str());
    let connected = str_eq(b.data_state.as_str(), "already-friends") || str_eq(
        b.data_state.as_str(),
        "pending-approval",
    ) || mentions_text(&lower_cs, "friends");
    if b.displayed && b.enabled && !connected {
        FriendButton::Press
    } else if connected {
        FriendButton::Connected
    } else {
        FriendButton::Pass
    }
}

/// The address of a profile, given its name as the feed shows it (with its
/// `~`).
pub open spec fn profile_url_spec(profile_name: Seq<char>) -> Seq<char> {
    "https://remilia.com/"@ + profile_name
}

/// Builds the address of a profile.
pub fn profile_url(profile_name: &str) -> (r: String)
    ensures
        r@ == profile_url_spec(profile_name@),
{
    let mut s = String::new();
    push_str(&mut s, "https://remilia.com/");
    push_str(&mut s, profile_name);
    s
}

/// An anchor's text as read, the empty text when it could not be read.
pub open spec fn text_or_empty(t: Option<String>) -> Seq<char> {
    match t {
        Some(s) => s@,
        None => Seq::empty(),
    }
}

/// The profile an activity line points at: its second anchor's text,
/// trimmed, unless the line has fewer than two anchors, either of the first
/// two is the bot's own name, or the profile was processed already.
pub open spec fn second_profile_spec(
    anchors: Seq<Option<String>>,
    mine: Seq<char>,
    processed: Seq<Seq<char>>,
) -> Option<Seq<char>> {
    if anchors.len() < 2 {
        None
    } else {
        let first = trim_spec(text_or_empty(anchors[0]));
        let second = trim_spec(text_or_empty(anchors[1]));
        if first == mine || second == mine {
            None
        } else if processed.contains(second) {
            None
        } else {
            Some(second)
        }
    }
}

fn trimmed_text(t: &Option<String>) -> (r: String)
    ensures
        r@ == trim_spec(text_or_empty(*t)),
{
    match t {
        Some(s) => crate::text::trim_str(s.as_str()),
        None => {
            let e: Vec<char> = Vec::new();
            let r = trim_chars(&e);
            assert(e@ == Seq::<char>::empty());
            string_from_chars(&r)
        },
    }
}

/// The profile an activity line points at (see `second_profile_spec`).
pub fn extract_second_profile(
    anchor_texts: &Vec<Option<String>>,
    my_username: &str,
    processed: &Vec<String>,
) -> (r: Option<String>)
    ensures
        match r {
            Some(p) => second_profile_spec(anchor_texts@, my_username@, names_view(processed@)) == Some(p@),
            None => second_profile_spec(anchor_texts@, my_username@, names_view(processed@)) is None,
        },
{
    if anchor_texts.len() < 2 {
        return None;
    }
    let first = trimmed_text(&anchor_texts[0]);
    let second = trimmed_text(&anchor_texts[1]);
    if str_eq(first.as_str(), my_username) || str_eq(second.as_str(), my_username) {
        return None;
    }
    if contains_name(processed, second.as_str()) {
        return None;
    }
    Some(second)
}

/// Every profile an activity line names, in order: each readable anchor's
/// text, trimmed, unless empty, the bot's own name, or named before on the
/// line.
pub open spec fn line_profiles(anchors: Seq<Option<String>>, mine: Seq<char>) -> Seq<Seq<char>>
    decreases anchors.len(),
{
    if anchors.len() == 0 {
        Seq::empty()
    } else {
        let prev = line_profiles(anchors.drop_last(), mine);
        match anchors.last() {
            None => prev,
            Some(t) => {
                let u = trim_spec(t@);
                if u.len() == 0 || u == mine || prev.contains(u) { prev } else { prev.push(u) }
            },
        }
    }
}

/// Every profile an activity line names (see `line_profiles`).
pub fn extract_all_profiles_from_line(anchor_texts: &Vec<Option<String>>, my_username: &str) -> (r: Vec<String>)
    ensures
        names_view(r@) == line_profiles(anchor_texts@, my_username@),
{
    let mut out: Vec<String> = Vec::new();
    let mut i: usize = 0;
    while i < anchor_texts.len()
        invariant
            i <= anchor_texts.len(),
            names_view(out@) == line_profiles(anchor_texts@.take(i as int), my_username@),
        decreases anchor_texts.len() - i,
    {
        proof {
            assert(anchor_texts@.take(i + 1).drop_last() == anchor_texts@.take(i as int));
            assert(anchor_texts@.take(i + 1).last() == anchor_texts@[i as int]);
        }
        match &anchor_texts[i] {
            Some(t) => {
                let u = crate::text::trim_str(t.as_str());
                if u.unicode_len() > 0 && !str_eq(u.as_str(), my_username) && !contains_name(&out, u.as_str()) {
                    let ghost before = out@;
                    out.push(u);
                    assert(names_view(out@) == names_view(before).push(out@[before.len() as int]@));
                }
            },
            None => {},
        }
        i = i + 1;
    }
    assert(anchor_texts@.take(anchor_texts.len() as int) == anchor_texts@);
    out
}

/// The profiles a pass of the session will visit, with how many of them
/// were never processed before, how many were, and how many names were
/// passed over because this session visited them already.
pub struct CandidateScan {
    pub candidates: Vec<String>,
    pub new_count: u32,
    pub seen_count: u32,
    pub session_skips: u32,
}

/// The scan as names and counts.
pub struct ScanView {
    pub candidates: Seq<Seq<char>>,
    pub new_count: int,
    pub seen_count: int,
    pub session_skips: int,
}

/// The scan before anything was looked at.
pub open spec fn empty_scan() -> ScanView {
    ScanView { candidates: Seq::empty(), new_count: 0, seen_count: 0, session_skips: 0 }
}

/// Looking at the profiles of one line from its `i`-th on: a profile this
/// session visited is passed over; a profile not yet chosen is chosen and
/// counted as new or seen before; the line stops as soon as `max` are chosen.
pub open spec fn scan_line(
    line: Seq<Seq<char>>,
    i: nat,
    st: ScanView,
    session: Seq<Seq<char>>,
    processed: Seq<Seq<char>>,
    max: int,
) -> ScanView
    decreases line.len() - i,
{
    if i >= line.len() {
        st
    } else {
        let p = line[i as int];
        if session.contains(p) {
            scan_line(line, i + 1, ScanView { session_skips: st.session_skips + 1, ..st }, session, processed, max)
        } else if !st.candidates.contains(p) {
            let next = ScanView {
                candidates: st.candidates.push(p),
                new_count: if processed.contains(p) { st.new_count } else { st.new_count + 1 },
                seen_count: if processed.contains(p) { st.seen_count + 1 } else { st.seen_count },
                ..st
            };
            if next.candidates.len() >= max { next } else { scan_line(line, i + 1, next, session, processed, max) }
        } else {
            scan_line(line, i + 1, st, session, processed, max)
        }
    }
}

/// Looking at the lines from the `j`-th on, stopping after the line in
/// which `max` profiles are chosen.
pub open spec fn scan_lines(
    lines: Seq<Seq<Seq<char>>>,
    j: nat,
    st: ScanView,
    session: Seq<Seq<char>>,
    processed: Seq<Seq<char>>,
    max: int,
) -> ScanView
    decreases lines.len() - j,
{
    if j >= lines.len() {
        st
    } else {
        let next = scan_line(lines[j as int], 0, st, session, processed, max);
        if next.candidates.len() >= max { next } else { scan_lines(lines, j + 1, next, session, processed, max) }
    }
}

/// The names of each line.
pub open spec fn lines_view(lines: Seq<Vec<String>>) -> Seq<Seq<Seq<char>>> {
    lines.map_values(|l: Vec<String>| names_view(l@))
}

/// The number of names on all lines.
pub open spec fn names_on_lines(lines: Seq<Vec<String>>) -> int
    decreases lines.len(),
{
    if lines.len() == 0 { 0 } else { names_on_lines(lines.drop_last()) + lines.last()@.len() }
}

/// The scan as names and counts.
pub open spec fn scan_view(s: CandidateScan) -> ScanView {
    ScanView {
        candidates: names_view(s.candidates@),
        new_count: s.new_count as int,
        seen_count: s.seen_count as int,
        session_skips: s.session_skips as int,
    }
}

proof fn lemma_names_on_lines_prefix(lines: Seq<Vec<String>>, j: int)
    requires
        0 <= j < lines.len(),
    ensures
        names_on_lines(lines.take(j + 1)) == names_on_lines(lines.take(j)) + lines[j]@.len(),
        names_on_lines(lines.take(j)) >= 0,
{
    assert(lines.take(j + 1).drop_last() == lines.take(j));
    lemma_names_on_lines_nonneg(lines.take(j));
}

proof fn lemma_names_on_lines_nonneg(lines: Seq<Vec<String>>)
    ensures
        names_on_lines(lines) >= 0,
    decreases lines.len(),
{
    if lines.len() > 0 {
        lemma_names_on_lines_nonneg(lines.drop_last());
    }
}

proof fn lemma_names_on_lines_grow(lines: Seq<Vec<String>>, a: int, b: int)
    requires
        0 <= a <= b <= lines.len(),
    ensures
        names_on_lines(lines.take(a)) <= names_on_lines(lines.take(b)),
    decreases b - a,
{
    if a < b {
        lemma_names_on_lines_grow(lines, a, b - 1);
        lemma_names_on_lines_prefix(lines, b - 1);
    }
}

/// Chooses the profiles a pass of the session will visit (see
/// `scan_lines`), from the profiles named on each activity line.
pub fn collect_candidates(
    lines: &Vec<Vec<String>>,
    session_checked: &Vec<String>,
    processed: &Vec<String>,
    max_profiles: usize,
) -> (r: CandidateScan)
    requires
        names_on_lines(lines@) <= u32::MAX,
    ensures
        scan_view(r) == scan_lines(
            lines_view(lines@),
            0,
            empty_scan(),
            names_view(session_checked@),
            names_view(processed@),
            max_profiles as int,
        ),
{
    let ghost session = names_view(session_checked@);
    let ghost done = names_view(processed@);
    let ghost lv = lines_view(lines@);
    let mut scan = CandidateScan { candidates: Vec::new(), new_count: 0, seen_count: 0, session_skips: 0 };
    let mut j: usize = 0;
    assert(names_view(scan.candidates@) =~= Seq::<Seq<char>>::empty());
    assert(lines@.take(0) =~= Seq::<Vec<String>>::empty());
    while j < lines.len()
        invariant
            j <= lines.len(),
            session == names_view(session_checked@),
            done == names_view(processed@),
            lv == lines_view(lines@),
            names_on_lines(lines@) <= u32::MAX,
            scan_view(scan).new_count + scan_view(scan).seen_count + scan_view(scan).session_skips
                <= names_on_lines(lines@.take(j as int)),
            scan_view(scan).candidates.len() < max_profiles || j == 0,
            j == 0 ==> scan_view(scan) == empty_scan(),
            scan_lines(lv, 0, empty_scan(), session, done, max_profiles as int)
                == scan_lines(lv, j as nat, scan_view(scan), session, done, max_profiles as int),
        decreases lines.len() - j,
    {
        proof {
            lemma_names_on_lines_prefix(lines@, j as int);
            lemma_names_on_lines_grow(lines@, j + 1, lines@.len() as int);
            assert(lines@.take(lines@.len() as int) == lines@);
        }
        let line = &lines[j];
        let ghost lnames = names_view(line@);
        assert(lv[j as int] == lnames);
        let ghost start = scan_view(scan);
        let ghost base = names_on_lines(lines@.take(j as int));
        let mut i: usize = 0;
        let mut stop = false;
        while i < line.len() && !stop
            invariant
                i <= line.len(),
                session == names_view(session_checked@),
                done == names_view(processed@),
                lnames == names_view(line@),
                base + line@.len() <= u32::MAX,
                scan_view(scan).new_count + scan_view(scan).seen_count + scan_view(scan).session_skips
                    <= base + i,
                stop ==> scan_view(scan) == scan_line(lnames, 0, start, session, done, max_profiles as int),
                stop ==> scan_view(scan).candidates.len() >= max_profiles,
                !stop ==> scan_line(lnames, 0, start, session, done, max_profiles as int)
                    == scan_line(lnames, i as nat, scan_view(scan), session, done, max_profiles as int),
            decreases line.len() - i,
        {
            let p = &line[i];
            assert(lnames[i as int] == p@);
            if contains_name(session_checked, p.as_str()) {
                scan.session_skips = scan.session_skips + 1;
            } else if !contains_name(&scan.candidates, p.as_str()) {
                if contains_name(processed, p.as_str()) {
                    scan.seen_count = scan.seen_count + 1;
                } else {
                    scan.new_count = scan.new_count + 1;
                }
                let ghost before = scan.candidates@;
                scan.candidates.push(p.clone());
                assert(names_view(scan.candidates@) == names_view(before).push(p@));
                if scan.candidates.len() >= max_profiles {
                    stop = true;
                }
            }
            i = i + 1;
        }
        if !stop {
            assert(scan_line(lnames, i as nat, scan_view(scan), session, done, max_profiles as int) == scan_view(scan));
        }
        if scan.candidates.len() >= max_profiles {
            return scan;
        }
        j = j + 1;
    }
    scan
}

/// Seconds after a beetle claim before the next is looked at.
pub const BEETLE_CLAIM_PERIOD_SECS: u64 = 8 * 3600;

/// Seconds after a cheese claim before the next is looked at.
pub const CHEESE_CLAIM_PERIOD_SECS: u64 = 24 * 3600;

/// Seconds before a claim that failed is looked at again.
pub const CLAIM_RETRY_SECS: u64 = 300;

/// How a look at a claim went.
#[derive(Debug, PartialEq, Eq, Structural, Clone, Copy)]
pub enum ClaimAttempt {
    /// Claimed.
    Claimed,
    /// Not ready; the seconds shown, if any.
    NotReady(Option<u64>),
    /// The page could not be worked.
    Failed,
}

/// Whether a claim is due at `now`: never looked at, or its time came.
pub fn claim_due(next_check: Option<u64>, now: u64) -> (r: bool)
    ensures
        r == match next_check {
            None => true,
            Some(t) => now >= t,
        },
{
    match next_check {
        None => true,
        Some(t) => now >= t,
    }
}

/// When to look at a claim next, after a look at `now` (instants in
/// seconds): a claim waits a full `period`, a timer waits what it shows, a
/// failure waits five minutes, and a status with no timer leaves the time
/// as it was.
pub open spec fn next_claim_check_spec(previous: Option<u64>, now: u64, attempt: ClaimAttempt, period: u64) -> Option<int> {
    match attempt {
        ClaimAttempt::Claimed => Some(now + period),
        ClaimAttempt::NotReady(Some(w)) => Some(now + w),
        ClaimAttempt::NotReady(None) => match previous {
            Some(t) => Some(t as int),
            None => None,
        },
        ClaimAttempt::Failed => Some(now + CLAIM_RETRY_SECS),
    }
}

/// When to look at a claim next (see `next_claim_check_spec`).
pub fn next_claim_check(previous: Option<u64>, now: u64, attempt: ClaimAttempt, period: u64) -> (r: Option<u64>)
    requires
        next_claim_check_spec(previous, now, attempt, period) matches Some(t) ==> t <= u64::MAX,
    ensures
        match r {
            Some(t) => next_claim_check_spec(previous, now, attempt, period) == Some(t as int),
            None => next_claim_check_spec(previous, now, attempt, period) is None,
        },
{
    match attempt {
        ClaimAttempt::Claimed => Some(now + period),
        ClaimAttempt::NotReady(Some(w)) => Some(now + w),
        ClaimAttempt::NotReady(None) => previous,
        ClaimAttempt::Failed => Some(now + CLAIM_RETRY_SECS),
    }
}

/// What to do before a session, given how the beetle and cheese claims
/// went (claimed, and the seconds their timers show).
#[derive(Debug, PartialEq, Eq, Structural, Clone, Copy)]
pub enum PreSession {
    /// A claim was made: start at once.
    StartNow,
    /// Wait this many seconds, claim again, then start.
    WaitThen(u64),
    /// No timer runs: start at once.
    NoCooldown,
}

/// The plan before a session: start at once after a claim; otherwise wait
/// for the sooner of the two timers, if any runs.
pub open spec fn pre_session_spec(beetle: (bool, Option<u64>), cheese: (bool, Option<u64>)) -> PreSession {
    if beetle.0 || cheese.0 {
        PreSession::StartNow
    } else {
        match (beetle.1, cheese.1) {
            (Some(b), Some(c)) => PreSession::WaitThen(if b <= c { b } else { c }),
            (Some(b), None) => PreSession::WaitThen(b),
            (None, Some(c)) => PreSession::WaitThen(c),
            (None, None) => PreSession::NoCooldown,
        }
    }
}

/// Plans what to do before a session.
pub fn pre_session_plan(beetle: (bool, Option<u64>), cheese: (bool, Option<u64>)) -> (r: PreSession)
    ensures
        r == pre_session_spec(beetle, cheese),
        (r is StartNow) == (beetle.0 || cheese.0),
        (r is NoCooldown) == (!beetle.0 && !cheese.0 && beetle.1 is None && cheese.1 is None),
        r matches PreSession::WaitThen(w) ==> {
            &&& (beetle.1 == Some(w) || cheese.1 == Some(w))
            &&& (beetle.1 matches Some(b) ==> w <= b)
            &&& (cheese.1 matches Some(c) ==> w <= c)
        },
{
    proof {
        law_pre_session_waits_for_the_sooner_timer(beetle, cheese);
    }
    if beetle.0 || cheese.0 {
        PreSession::StartNow
    } else {
        match (beetle.1, cheese.1) {
            (Some(b), Some(c)) => PreSession::WaitThen(if b <= c { b } else { c }),
            (Some(b), None) => PreSession::WaitThen(b),
            (None, Some(c)) => PreSession::WaitThen(c),
            (None, None) => PreSession::NoCooldown,
        }
    }
}

/// The time left before the next session, as the countdown shows it: hours,
/// minutes and seconds in the same form as `format_duration`.
pub fn format_wait_time(seconds: u64) -> (s: String)
    ensures
        s@ == duration_text(seconds as nat),
{
    format_duration(seconds)
}

/// How often a countdown of `total` seconds shows the time left: every
/// minute for waits over five minutes, else every ten seconds.
pub fn countdown_step(total: u64) -> (r: u64)
    ensures
        r == (if total > 300 { 60u64 } else { 10u64 }),
{
    if total > 300 { 60 } else { 10 }
}

/// Whether the countdown shows the time left when `remaining` seconds are
/// left: on each step, and every second of the last ten.
pub fn countdown_shows(remaining: u64, step: u64) -> (r: bool)
    requires
        step > 0,
    ensures
        r == (remaining % step == 0 || remaining < 10),
{
    remaining % step == 0 || remaining < 10
}

/// Before a session: after a claim the session starts at once; otherwise,
/// when a timer runs, the wait is the smallest running timer; and the plan
/// is to start without waiting only when no timer runs.
pub proof fn law_pre_session_waits_for_the_sooner_timer(beetle: (bool, Option<u64>), cheese: (bool, Option<u64>))
    ensures
        (pre_session_spec(beetle, cheese) is StartNow) == (beetle.0 || cheese.0),
        (pre_session_spec(beetle, cheese) is NoCooldown) == (!beetle.0 && !cheese.0 && beetle.1 is None
            && cheese.1 is None),
        pre_session_spec(beetle, cheese) matches PreSession::WaitThen(w) ==> {
            &&& !beetle.0 && !cheese.0
            &&& (beetle.1 == Some(w) || cheese.1 == Some(w))
            &&& (beetle.1 matches Some(b) ==> w <= b)
            &&& (cheese.1 matches Some(c) ==> w <= c)
        },
{
}

} // verus!
