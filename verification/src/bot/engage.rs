//! Poking and befriending the users of the friends database: what a refused
//! poke says, how the cooldown is read back from it, and what each answer
//! changes in the database.

use vstd::prelude::*;
use crate::models::database::{DAY_SECONDS, FriendsDatabase, with_friend_request, with_poke};
use crate::text::{
    chars_of, dec, find, find_chars, lemma_find_from_first, lemma_parse_dec, occurs_at,
    parse_i64_chars, parse_i64_spec, push_str, push_u64, sub_chars,
};

verus! {

/// The text that closes the cooldown figure of a refusal.
pub open spec fn seconds_close() -> Seq<char> {
    seq![' ', 's', 'e', 'c', 'o', 'n', 'd', 's', ')']
}

/// The cooldown in a message such as `... (1800 seconds)`: the text between
/// the first `(` and the first ` seconds)` after it, read as a signed number.
pub open spec fn paren_cooldown_spec(e: Seq<char>) -> Option<i64> {
    match find(e, seq!['(']) {
        None => None,
        Some(start) => match find(e.skip(start), seconds_close()) {
            None => None,
            Some(end) => parse_i64_spec(e.subrange(start + 1, start + end)),
        },
    }
}

/// Reads the cooldown, in seconds, out of a refused poke's message.
pub fn extract_cooldown_seconds(err_msg: &str) -> (r: Option<i64>)
    ensures
        r == paren_cooldown_spec(err_msg@),
{
    let e = chars_of(err_msg);
    let open = vec!['('];
    assert(open@ == seq!['(']);
    match find_chars(&e, &open, 0) {
        None => None,
        Some(start) => {
            let rest = sub_chars(&e, start, e.len());
            assert(rest@ == err_msg@.skip(start as int));
            let close = vec![' ', 's', 'e', 'c', 'o', 'n', 'd', 's', ')'];
            assert(close@ == seconds_close());
            match find_chars(&rest, &close, 0) {
                None => None,
                Some(end) => {
                    // the `(` opens the rest, so ` seconds)` starts after it
                    assert(end >= 1) by {
                        if end == 0 {
                            assert(rest@[0] == '(');
                            assert(rest@.subrange(0, 9)[0] == rest@[0]);
                        }
                    }
                    let r = parse_i64_chars(&e, start + 1, start + end);
                    r
                },
            }
        },
    }
}

/// What the profile said when a poke failed with a server error: the user
/// is cooling down for this many seconds, can be poked, said nothing, or
/// could not be read (with why).
pub enum ProfileCheck {
    CoolingDown(u32),
    CanPoke,
    NoContext,
    Unavailable(String),
}

/// The opening of every refusal.
pub open spec fn refusal_mark() -> Seq<char> {
    seq!['❌', ' ']
}

/// Everything of a cooldown refusal before the `(` of its figure.
pub open spec fn cooldown_lead(username: Seq<char>, cooldown: u32) -> Seq<char> {
    let minutes = cooldown / 60;
    refusal_mark() + seq!['C', 'a', 'n', 'n', 'o', 't', ' ', 'p', 'o', 'k', 'e', ' '] + username
        + seq![':', ' ', 'S', 't', 'i', 'l', 'l', ' ', 'o', 'n', ' ', 'c', 'o', 'o', 'l', 'd', 'o', 'w', 'n', ' ', 'f', 'o', 'r', ' ']
        + dec((minutes / 60) as nat) + seq![' ', 'h', 'o', 'u', 'r', 's', ' ', 'a', 'n', 'd', ' ']
        + dec((minutes % 60) as nat) + seq![' ', 'm', 'i', 'n', 'u', 't', 'e', 's', ' ']
}

/// The refusal of a poke to a user still cooling down:
/// `❌ Cannot poke NAME: Still on cooldown for H hours and M minutes (S seconds)`.
pub open spec fn cooldown_message(username: Seq<char>, cooldown: u32) -> Seq<char> {
    cooldown_lead(username, cooldown) + seq!['('] + dec(cooldown as nat) + seconds_close()
}

/// The error a poke that failed with a server error ends in, given what the
/// profile said; `error_text` is the body of the failed answer.
pub open spec fn server_error_message(username: Seq<char>, error_text: Seq<char>, check: ProfileCheck) -> Seq<char> {
    match check {
        ProfileCheck::CoolingDown(c) => cooldown_message(username, c),
        ProfileCheck::CanPoke => refusal_mark() + "Profile says canPoke is true, but request failed with 500: "@
            + error_text,
        ProfileCheck::NoContext => refusal_mark() + "Request failed with 500 and no extra context in profile: "@
            + error_text,
        ProfileCheck::Unavailable(why) => refusal_mark() + "Request failed with 500 and couldn't fetch profile: "@
            + why@ + ". Original error: "@ + error_text,
    }
}

/// Builds the error a poke that failed with a server error ends in.
pub fn server_error_message_text(username: &str, error_text: &str, check: &ProfileCheck) -> (r: String)
    ensures
        r@ == server_error_message(username@, error_text@, *check),
{
    let mut s = String::new();
    proof {
        reveal_strlit("❌ ");
    }
    push_str(&mut s, "❌ ");
    match check {
        ProfileCheck::CoolingDown(c) => {
            let minutes = *c / 60;
            proof {
                reveal_strlit("Cannot poke ");
                reveal_strlit(": Still on cooldown for ");
                reveal_strlit(" hours and ");
                reveal_strlit(" minutes (");
                reveal_strlit(" seconds)");
            }
            push_str(&mut s, "Cannot poke ");
            push_str(&mut s, username);
            push_str(&mut s, ": Still on cooldown for ");
            push_u64(&mut s, (minutes / 60) as u64);
            push_str(&mut s, " hours and ");
            push_u64(&mut s, (minutes % 60) as u64);
            push_str(&mut s, " minutes (");
            push_u64(&mut s, *c as u64);
            push_str(&mut s, " seconds)");
            assert(" minutes ("@ == seq![' ', 'm', 'i', 'n', 'u', 't', 'e', 's', ' '] + seq!['(']);
            assert(s@ == cooldown_message(username@, *c));
        },
        ProfileCheck::CanPoke => {
            push_str(&mut s, "Profile says canPoke is true, but request failed with 500: ");
            push_str(&mut s, error_text);
        },
        ProfileCheck::NoContext => {
            push_str(&mut s, "Request failed with 500 and no extra context in profile: ");
            push_str(&mut s, error_text);
        },
        ProfileCheck::Unavailable(why) => {
            push_str(&mut s, "Request failed with 500 and couldn't fetch profile: ");
            push_str(&mut s, why.as_str());
            push_str(&mut s, ". Original error: ");
            push_str(&mut s, error_text);
        },
    }
    s
}

/// A cooldown refusal gives back the cooldown it states, whenever the
/// username holds no `(`.
pub proof fn lemma_cooldown_message_round_trip(username: Seq<char>, cooldown: u32)
    requires
        !username.contains('('),
    ensures
        paren_cooldown_spec(cooldown_message(username, cooldown)) == Some(cooldown as i64),
{
    let lead = cooldown_lead(username, cooldown);
    let digits = dec(cooldown as nat);
    let msg = cooldown_message(username, cooldown);
    let minutes = cooldown / 60;
    crate::text::lemma_dec_digits((minutes / 60) as nat);
    crate::text::lemma_dec_digits((minutes % 60) as nat);
    crate::text::lemma_dec_digits(cooldown as nat);
    lemma_parse_dec(cooldown as nat);
    let p = lead.len() as int;
    assert(msg[p] == '(');
    assert forall|q: int| 0 <= q < p implies lead[q] != '(' by {
        let a = refusal_mark() + seq!['C', 'a', 'n', 'n', 'o', 't', ' ', 'p', 'o', 'k', 'e', ' '];
        let b = a + username;
        let c1 = b + seq![':', ' ', 'S', 't', 'i', 'l', 'l', ' ', 'o', 'n', ' ', 'c', 'o', 'o', 'l', 'd', 'o', 'w', 'n', ' ', 'f', 'o', 'r', ' '];
        let d1 = c1 + dec((minutes / 60) as nat);
        let e1 = d1 + seq![' ', 'h', 'o', 'u', 'r', 's', ' ', 'a', 'n', 'd', ' '];
        let f1 = e1 + dec((minutes % 60) as nat);
        assert(lead == f1 + seq![' ', 'm', 'i', 'n', 'u', 't', 'e', 's', ' ']);
        if q < a.len() {
        } else if q < b.len() {
            assert(lead[q] == username[q - a.len()]);
        } else if q < c1.len() {
        } else if q < d1.len() {
            assert(lead[q] == dec((minutes / 60) as nat)[q - c1.len()]);
        } else if q < e1.len() {
        } else if q < f1.len() {
            assert(lead[q] == dec((minutes % 60) as nat)[q - e1.len()]);
        } else {
        }
    }
    assert forall|q: int| 0 <= q < p implies !occurs_at(msg, seq!['('], q) by {
        assert(msg[q] == lead[q]);
        if occurs_at(msg, seq!['('], q) {
            assert(msg.subrange(q, q + 1)[0] == msg[q]);
        }
    }
    assert(msg.subrange(p, p + 1) == seq!['(']);
    lemma_find_from_first(msg, seq!['('], 0, p);
    let rest = msg.skip(p);
    assert(rest == seq!['('] + digits + seconds_close());
    let end = 1 + digits.len() as int;
    assert(rest.subrange(end, end + 9) == seconds_close());
    assert forall|q: int| 0 <= q < end implies !occurs_at(rest, seconds_close(), q) by {
        if occurs_at(rest, seconds_close(), q) {
            assert(rest.subrange(q, q + 9)[0] == rest[q]);
            if q > 0 {
                assert(rest[q] == digits[q - 1]);
            }
        }
    }
    lemma_find_from_first(rest, seconds_close(), 0, end);
    assert(msg.subrange(p + 1, p + end) == digits);
}

/// How a poke went: poked, declined by the site, or failed with this error.
pub enum PokeOutcome {
    Poked,
    Declined,
    Failed(String),
}

/// How a poke counts in a run's summary.
#[derive(Debug, PartialEq, Eq, Structural, Clone, Copy)]
pub enum PokeTally {
    Poked,
    CoolingDown,
    NotPoked,
}

/// The text by which a failed poke is known to be a cooldown.
pub open spec fn still_on_cooldown() -> Seq<char> {
    seq!['S', 't', 'i', 'l', 'l', ' ', 'o', 'n', ' ', 'c', 'o', 'o', 'l', 'd', 'o', 'w', 'n']
}

/// Whether a failure is a cooldown refusal.
pub open spec fn is_cooldown_failure(msg: Seq<char>) -> bool {
    find(msg, still_on_cooldown()) is Some
}

/// The poke time that leaves a cooldown of `c` seconds at `now`.
pub open spec fn cooled_poke_time(now: i64, c: i64) -> int {
    now + c - DAY_SECONDS
}

/// The recorded poke times fit in 64 bits.
pub open spec fn poke_outcome_fits(outcome: PokeOutcome, now: i64) -> bool {
    match outcome {
        PokeOutcome::Failed(m) => is_cooldown_failure(m@) ==> match paren_cooldown_spec(m@) {
            Some(c) => i64::MIN <= now + c <= i64::MAX && i64::MIN <= cooled_poke_time(now, c),
            None => true,
        },
        _ => true,
    }
}

/// What a poke answered at `now` does to the records, and how it counts: a
/// poke records `now`; when `read_cooldowns`, a cooldown refusal records the
/// poke time that leaves the stated cooldown (or `now` when none is stated);
/// anything else changes nothing.
pub open spec fn poke_effect(
    db: Seq<crate::models::database::UserRecord>,
    name: Seq<char>,
    outcome: PokeOutcome,
    read_cooldowns: bool,
    now: i64,
) -> (Seq<crate::models::database::UserRecord>, PokeTally) {
    match outcome {
        PokeOutcome::Poked => (with_poke(db, name, now), PokeTally::Poked),
        PokeOutcome::Declined => (db, PokeTally::NotPoked),
        PokeOutcome::Failed(m) => if read_cooldowns && is_cooldown_failure(m@) {
            match paren_cooldown_spec(m@) {
                Some(c) => (with_poke(db, name, cooled_poke_time(now, c) as i64), PokeTally::CoolingDown),
                None => (with_poke(db, name, now), PokeTally::CoolingDown),
            }
        } else {
            (db, PokeTally::NotPoked)
        },
    }
}

fn cooldown_failure(msg: &str) -> (r: bool)
    ensures
        r == is_cooldown_failure(msg@),
{
    let cs = chars_of(msg);
    let pat = vec!['S', 't', 'i', 'l', 'l', ' ', 'o', 'n', ' ', 'c', 'o', 'o', 'l', 'd', 'o', 'w', 'n'];
    assert(pat@ == still_on_cooldown());
    find_chars(&cs, &pat, 0).is_some()
}

/// Records in the database what a poke of `username`, answered at `now`,
/// came to, and says how it counts.
pub fn record_poke_outcome_at(
    db: &mut FriendsDatabase,
    username: &str,
    outcome: &PokeOutcome,
    read_cooldowns: bool,
    now: i64,
) -> (t: PokeTally)
    requires
        old(db).wf(),
        poke_outcome_fits(*outcome, now),
    ensures
        final(db).wf(),
        final(db).path() == old(db).path(),
        (final(db)@, t) == poke_effect(old(db)@, username@, *outcome, read_cooldowns, now),
{
    match outcome {
        PokeOutcome::Poked => {
            db.update_poke_at(username, now);
            PokeTally::Poked
        },
        PokeOutcome::Declined => PokeTally::NotPoked,
        PokeOutcome::Failed(m) => {
            if read_cooldowns && cooldown_failure(m.as_str()) {
                match extract_cooldown_seconds(m.as_str()) {
                    Some(c) => db.update_poke_with_cooldown_at(username, c, now),
                    None => db.update_poke_at(username, now),
                }
                PokeTally::CoolingDown
            } else {
                PokeTally::NotPoked
            }
        },
    }
}

/// How a friend request went: sent, declined by the site, or failed.
#[derive(Debug, PartialEq, Eq, Structural, Clone, Copy)]
pub enum FriendOutcome {
    Sent,
    Declined,
    Failed,
}

/// What a friend request answered at `now` does to the records: a sent
/// request is marked; so is a declined one when `mark_declined` (so that it
/// is not tried again); a failure changes nothing.
pub open spec fn friend_effect(
    db: Seq<crate::models::database::UserRecord>,
    name: Seq<char>,
    outcome: FriendOutcome,
    mark_declined: bool,
    now: i64,
) -> Seq<crate::models::database::UserRecord> {
    if outcome == FriendOutcome::Sent || (outcome == FriendOutcome::Declined && mark_declined) {
        with_friend_request(db, name, now)
    } else {
        db
    }
}

/// Records in the database what a friend request to `username`, answered
/// at `now`, came to; true when it was sent.
pub fn record_friend_outcome_at(
    db: &mut FriendsDatabase,
    username: &str,
    outcome: FriendOutcome,
    mark_declined: bool,
    now: i64,
) -> (sent: bool)
    requires
        old(db).wf(),
    ensures
        final(db).wf(),
        final(db).path() == old(db).path(),
        final(db)@ == friend_effect(old(db)@, username@, outcome, mark_declined, now),
        sent == (outcome == FriendOutcome::Sent),
{
    match outcome {
        FriendOutcome::Sent => {
            db.mark_friend_request_sent_at(username, now);
            true
        },
        FriendOutcome::Declined => {
            if mark_declined {
                db.mark_friend_request_sent_at(username, now);
            }
            false
        },
        FriendOutcome::Failed => false,
    }
}

/// The account whose friends are scraped into the database.
pub const SCRAPE_SOURCE: &'static str = "remilia_jackson";

/// The bot's own username, kept out of the database.
pub const OWN_USERNAME: &'static str = "mao";

/// Friends per page when scraping.
pub const FRIENDS_PAGE_SIZE: u32 = 100;

/// `s` without its leading `~`s.
pub open spec fn without_tildes(s: Seq<char>) -> Seq<char>
    decreases s.len(),
{
    if s.len() > 0 && s[0] == '~' { without_tildes(s.drop_first()) } else { s }
}

/// Whether a scraped username is the bot's own `mine`: equal to it, to it
/// after a `~`, or to it after any leading `~`s.
pub open spec fn is_own_name_spec(name: Seq<char>, mine: Seq<char>) -> bool {
    name == mine || name == seq!['~'] + mine || without_tildes(name) == mine
}

fn strip_tildes(cs: &Vec<char>) -> (r: usize)
    ensures
        r <= cs@.len(),
        cs@.skip(r as int) == without_tildes(cs@),
{
    let mut i: usize = 0;
    assert(cs@.skip(0) == cs@);
    while i < cs.len() && cs[i] == '~'
        invariant
            i <= cs.len(),
            without_tildes(cs@) == without_tildes(cs@.skip(i as int)),
        decreases cs.len() - i,
    {
        assert(cs@.skip(i as int).drop_first() == cs@.skip(i + 1));
        i = i + 1;
    }
    i
}

fn chars_eq(a: &Vec<char>, b: &Vec<char>) -> (r: bool)
    ensures
        r == (a@ == b@),
{
    if a.len() != b.len() {
        return false;
    }
    let mut i: usize = 0;
    while i < a.len()
        invariant
            i <= a.len(),
            a.len() == b.len(),
            forall|j: int| 0 <= j < i ==> a@[j] == b@[j],
        decreases a.len() - i,
    {
        if a[i] != b[i] {
            return false;
        }
        i = i + 1;
    }
    assert(a@ == b@);
    true
}

/// Whether a scraped username is the bot's own.
pub fn is_own_name(name: &str, mine: &str) -> (r: bool)
    ensures
        r == is_own_name_spec(name@, mine@),
{
    let n = chars_of(name);
    let m = chars_of(mine);
    let mut tilde_m: Vec<char> = vec!['~'];
    let mut mc = m.clone();
    assert(mc@ == m@);
    tilde_m.append(&mut mc);
    assert(tilde_m@ == seq!['~'] + mine@);
    let k = strip_tildes(&n);
    let stripped = sub_chars(&n, k, n.len());
    assert(stripped@ == n@.skip(k as int));
    chars_eq(&n, &m) || chars_eq(&n, &tilde_m) || chars_eq(&stripped, &m)
}

/// The usernames of a page of friends without the bot's own, and how many
/// times the own name was dropped.
pub open spec fn others_of(friends: Seq<crate::models::profile::Friend>, mine: Seq<char>) -> Seq<Seq<char>>
    decreases friends.len(),
{
    if friends.len() == 0 {
        Seq::empty()
    } else if is_own_name_spec(friends.last().display_username@, mine) {
        others_of(friends.drop_last(), mine)
    } else {
        others_of(friends.drop_last(), mine).push(friends.last().display_username@)
    }
}

/// The usernames of a page of friends without the bot's own (in order),
/// with the number of names dropped.
pub fn friends_without_self(friends: &Vec<crate::models::profile::Friend>, mine: &str) -> (r: (Vec<String>, usize))
    ensures
        r.0@.map_values(|s: String| s@) == others_of(friends@, mine@),
        r.1 + r.0@.len() == friends@.len(),
{
    let mut out: Vec<String> = Vec::new();
    let mut dropped: usize = 0;
    let mut i: usize = 0;
    while i < friends.len()
        invariant
            i <= friends.len(),
            out@.map_values(|s: String| s@) == others_of(friends@.take(i as int), mine@),
            dropped + out@.len() == i,
        decreases friends.len() - i,
    {
        proof {
            assert(friends@.take(i + 1).drop_last() == friends@.take(i as int));
            assert(friends@.take(i + 1).last() == friends@[i as int]);
        }
        if is_own_name(friends[i].display_username.as_str(), mine) {
            dropped = dropped + 1;
        } else {
            let ghost before = out@;
            out.push(friends[i].display_username.clone());
            assert(out@.map_values(|s: String| s@) == before.map_values(|s: String| s@).push(
                friends@[i as int].display_username@,
            ));
        }
        i = i + 1;
    }
    assert(friends@.take(friends.len() as int) == friends@);
    (out, dropped)
}

/// How many page errors a scrape puts up with before it stops.
pub const SCRAPE_ERROR_LIMIT: u32 = 3;

/// Whether a scrape goes on to the next page after its `errors`-th error.
pub fn scrape_continues(errors: u32) -> (r: bool)
    ensures
        r == (errors < SCRAPE_ERROR_LIMIT),
{
    errors < SCRAPE_ERROR_LIMIT
}

} // verus!
