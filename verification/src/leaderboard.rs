//! Building the leaderboard: which users are fetched and in what batches,
//! how a rate-limited request is retried, what a fetched profile adds, and
//! how the command line picks the order.

use vstd::prelude::*;
use crate::automation::lowercase;
use crate::bot::feed::{contains_name, names_view};
use crate::models::leaderboard::{LeaderboardEntry, SortBy};
use crate::models::profile::ProfileResponse;
use crate::text::{chars_of, find, find_chars, str_eq};

verus! {

/// The bot's own account, always on the leaderboard.
pub const OWN_ACCOUNT: &'static str = "mao";

/// Profiles fetched at once.
pub const BATCH_SIZE: usize = 100;

/// Attempts before a rate-limited profile is given up.
pub const MAX_RETRIES: u32 = 30;

/// The first wait after a rate-limited request, in milliseconds.
pub const INITIAL_RETRY_DELAY_MS: u64 = 2000;

/// The users whose profiles are fetched: the database's names, with the
/// bot's own account added at the end when missing.
pub open spec fn with_own_account(names: Seq<Seq<char>>) -> Seq<Seq<char>> {
    if names.contains("mao"@) { names } else { names.push("mao"@) }
}

/// Adds the bot's own account to the users fetched, when missing.
pub fn add_own_account(usernames: &mut Vec<String>)
    ensures
        names_view(final(usernames)@) == with_own_account(names_view(old(usernames)@)),
{
    if !contains_name(usernames, OWN_ACCOUNT) {
        let ghost before = usernames@;
        usernames.push(OWN_ACCOUNT.to_owned());
        assert(names_view(usernames@) == names_view(before).push(OWN_ACCOUNT@));
    }
}

/// Keeps at most `limit` users, the first ones, when a limit is set.
pub fn apply_test_limit(usernames: &mut Vec<String>, limit: Option<usize>)
    ensures
        final(usernames)@ == match limit {
            Some(n) => if n < old(usernames)@.len() { old(usernames)@.take(n as int) } else { old(usernames)@ },
            None => old(usernames)@,
        },
{
    if let Some(n) = limit {
        usernames.truncate(n);
    }
}

/// The `k`-th batch of `total` users: from `k * BATCH_SIZE` to
/// `BATCH_SIZE` further, or to the end.
pub open spec fn batch_at(k: int, total: int) -> (int, int) {
    (k * BATCH_SIZE, if (k + 1) * BATCH_SIZE <= total { (k + 1) * BATCH_SIZE } else { total })
}

/// The batches `total` users are fetched in, as start and end positions:
/// consecutive ranges of `BATCH_SIZE`, the last one shorter.
pub fn batch_ranges(total: usize) -> (r: Vec<(usize, usize)>)
    ensures
        r@.len() == (total + BATCH_SIZE - 1) / (BATCH_SIZE as int),
        forall|k: int| 0 <= k < r@.len() ==> (#[trigger] r@[k].0 as int, r@[k].1 as int) == batch_at(k, total as int),
{
    let mut r: Vec<(usize, usize)> = Vec::new();
    let mut start: usize = 0;
    while start < total
        invariant
            start == r@.len() * BATCH_SIZE,
            start <= total,
            forall|k: int| 0 <= k < r@.len() ==> (#[trigger] r@[k].0 as int, r@[k].1 as int) == batch_at(k, total as int),
        decreases total - start,
    {
        let end = if total - start > BATCH_SIZE { start + BATCH_SIZE } else { total };
        let ghost before = r@;
        r.push((start, end));
        proof {
            assert forall|k: int| 0 <= k < r@.len() implies (#[trigger] r@[k].0 as int, r@[k].1 as int) == batch_at(k, total as int) by {
                if k < before.len() {
                    assert(r@[k] == before[k]);
                    assert((before[k].0 as int, before[k].1 as int) == batch_at(k, total as int));
                }
            }
        }
        if end == total {
            return r;
        }
        start = end;
    }
    r
}

/// 2 to the power `n`.
pub open spec fn doubling(n: nat) -> nat
    decreases n,
{
    if n == 0 { 1 } else { 2 * doubling((n - 1) as nat) }
}

proof fn lemma_doubling_grows(a: nat, b: nat)
    requires
        a <= b,
    ensures
        doubling(a) <= doubling(b),
    decreases b,
{
    if a < b {
        lemma_doubling_grows(a, (b - 1) as nat);
    }
}

proof fn lemma_doubling_29()
    ensures
        doubling(29) == 536870912,
{
    assert(doubling(0) == 1);
    assert(doubling(1) == 2);
    assert(doubling(2) == 4);
    assert(doubling(3) == 8);
    assert(doubling(4) == 16);
    assert(doubling(5) == 32);
    assert(doubling(6) == 64);
    assert(doubling(7) == 128);
    assert(doubling(8) == 256);
    assert(doubling(9) == 512);
    assert(doubling(10) == 1024);
    assert(doubling(11) == 2048);
    assert(doubling(12) == 4096);
    assert(doubling(13) == 8192);
    assert(doubling(14) == 16384);
    assert(doubling(15) == 32768);
    assert(doubling(16) == 65536);
    assert(doubling(17) == 131072);
    assert(doubling(18) == 262144);
    assert(doubling(19) == 524288);
    assert(doubling(20) == 1048576);
    assert(doubling(21) == 2097152);
    assert(doubling(22) == 4194304);
    assert(doubling(23) == 8388608);
    assert(doubling(24) == 16777216);
    assert(doubling(25) == 33554432);
    assert(doubling(26) == 67108864);
    assert(doubling(27) == 134217728);
    assert(doubling(28) == 268435456);
    assert(doubling(29) == 536870912);
}

/// What to do about a rate-limited request.
#[derive(Debug, PartialEq, Eq, Structural, Clone, Copy)]
pub enum RetryDecision {
    /// Stop: the retries are used up.
    GiveUp,
    /// Try again after this many milliseconds.
    RetryAfter(u64),
}

/// After the `attempts`-th refusal for too many requests: give up at the
/// last allowed attempt, otherwise wait twice as long as the time before,
/// starting at two seconds.
pub open spec fn retry_decision_spec(attempts: u32) -> RetryDecision {
    if attempts >= MAX_RETRIES {
        RetryDecision::GiveUp
    } else {
        RetryDecision::RetryAfter((INITIAL_RETRY_DELAY_MS * doubling((attempts - 1) as nat)) as u64)
    }
}

/// Decides about the `attempts`-th refusal for too many requests.
pub fn retry_decision(attempts: u32) -> (r: RetryDecision)
    requires
        attempts >= 1,
    ensures
        r == retry_decision_spec(attempts),
{
    if attempts >= MAX_RETRIES {
        return RetryDecision::GiveUp;
    }
    proof {
        lemma_doubling_grows((attempts - 1) as nat, 29);
        lemma_doubling_29();
    }
    let mut factor: u64 = 1;
    let mut k: u32 = 0;
    while k < attempts - 1
        invariant
            k <= attempts - 1,
            attempts < MAX_RETRIES,
            factor == doubling(k as nat),
            doubling((attempts - 1) as nat) <= 536870912,
        decreases attempts - 1 - k,
    {
        proof {
            lemma_doubling_grows((k + 1) as nat, (attempts - 1) as nat);
        }
        factor = factor * 2;
        k = k + 1;
    }
    RetryDecision::RetryAfter(INITIAL_RETRY_DELAY_MS * factor)
}

/// Whether a failed fetch was a refusal for too many requests: its error
/// mentions `429`.
pub fn is_rate_limit_error(error: &str) -> (r: bool)
    ensures
        r == (find(error@, "429"@) is Some),
{
    let e = chars_of(error);
    let p = chars_of("429");
    find_chars(&e, &p, 0).is_some()
}

/// The pause before the next batch, in milliseconds, given the refusals
/// for too many requests so far: longer the more there were.
pub fn batch_delay_ms(failed_429_count: u64) -> (r: u64)
    ensures
        r == if failed_429_count > 10 { 5000u64 } else if failed_429_count > 5 { 4000u64 } else { 3000u64 },
{
    if failed_429_count > 10 {
        5000
    } else if failed_429_count > 5 {
        4000
    } else {
        3000
    }
}

/// The leaderboard entry of a fetched profile.
pub open spec fn entry_of(p: ProfileResponse) -> (Seq<char>, Seq<char>, u32, u32, i64, Option<Seq<char>>) {
    (p.user.username@, p.user.display_name@, p.user.beetles, p.user.pokes, p.user.social_credit.score,
        Some(p.user.pfp_url@))
}

/// An entry as its fields.
pub open spec fn entry_fields(e: LeaderboardEntry) -> (Seq<char>, Seq<char>, u32, u32, i64, Option<Seq<char>>) {
    (e.username@, e.display_name@, e.beetles, e.pokes, e.social_credit, match e.pfp_url {
        Some(u) => Some(u@),
        None => None,
    })
}

/// The leaderboard entry of a fetched profile.
pub fn entry_from_profile(profile: &ProfileResponse) -> (e: LeaderboardEntry)
    ensures
        entry_fields(e) == entry_of(*profile),
{
    LeaderboardEntry {
        username: profile.user.username.clone(),
        display_name: profile.user.display_name.clone(),
        beetles: profile.user.beetles,
        pokes: profile.user.pokes,
        social_credit: profile.user.social_credit.score,
        pfp_url: Some(profile.user.pfp_url.clone()),
    }
}

/// The order a command-line word asks for: `beetles`, `pokes`, or one of
/// `social`, `socialcredit`, `credit`, in any case; `None` for anything else.
pub open spec fn sort_word_spec(word: Seq<char>) -> Option<SortBy> {
    let w = lowercase(word);
    if w == "beetles"@ {
        Some(SortBy::Beetles)
    } else if w == "pokes"@ {
        Some(SortBy::Pokes)
    } else if w == "social"@ || w == "socialcredit"@ || w == "credit"@ {
        Some(SortBy::SocialCredit)
    } else {
        None
    }
}

/// Reads the order a command-line word asks for.
pub fn parse_sort_word(word: &str) -> (r: Option<SortBy>)
    ensures
        r == sort_word_spec(word@),
{
    let w = crate::automation::to_lowercase(word);
    let ws = w.as_str();
    if str_eq(ws, "beetles") {
        Some(SortBy::Beetles)
    } else if str_eq(ws, "pokes") {
        Some(SortBy::Pokes)
    } else if str_eq(ws, "social") || str_eq(ws, "socialcredit") || str_eq(ws, "credit") {
        Some(SortBy::SocialCredit)
    } else {
        None
    }
}

/// The leaderboard's command line: `--test` first limits the run to ten
/// users; the next word picks the order (beetles when missing or not
/// understood); the one after names the output file.
pub struct LeaderboardArgs {
    pub test_mode: bool,
    pub sort_by: SortBy,
    pub sort_word_understood: bool,
    pub output_file: String,
}

/// Reads the leaderboard's command line (its program name first).
pub fn parse_leaderboard_args(args: &Vec<String>) -> (r: LeaderboardArgs)
    ensures
        r.test_mode == (args@.len() > 1 && args@[1]@ == "--test"@),
        ({
            let offset: int = if r.test_mode { 2 } else { 1 };
            &&& args@.len() > offset ==> (match sort_word_spec(args@[offset]@) {
                Some(s) => r.sort_by == s && r.sort_word_understood,
                None => r.sort_by == SortBy::Beetles && !r.sort_word_understood,
            })
            &&& args@.len() <= offset ==> r.sort_by == SortBy::Beetles && r.sort_word_understood
            &&& r.output_file@ == if args@.len() > offset + 1 { args@[offset + 1]@ } else {
                "leaderboard.html"@
            }
        }),
{
    let test_mode = args.len() > 1 && str_eq(args[1].as_str(), "--test");
    let offset: usize = if test_mode { 2 } else { 1 };
    let (sort_by, understood) = if args.len() > offset {
        match parse_sort_word(args[offset].as_str()) {
            Some(s) => (s, true),
            None => (SortBy::Beetles, false),
        }
    } else {
        (SortBy::Beetles, true)
    };
    let output_file = if args.len() > offset + 1 {
        args[offset + 1].clone()
    } else {
        "leaderboard.html".to_owned()
    };
    LeaderboardArgs { test_mode, sort_by, sort_word_understood: understood, output_file }
}

/// The users a test run is limited to.
pub const TEST_MODE_LIMIT: usize = 10;

} // verus!
