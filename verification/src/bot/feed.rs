//! Reading the social feed: who takes part in it, who is most active, and
//! where the feed's data sits in a Socket.IO reply.

use vstd::prelude::*;
use crate::models::feed::{FeedActivity, FeedUser};
use crate::sorting::{desc_sorted, same_key_classes, stable_sort_desc};
use crate::json::{json_array_items, json_array_items_of};
use crate::text::{chars_of, find, find_chars, str_eq, string_from_chars, sub_chars};

verus! {

/// The names in a list of strings.
pub open spec fn names_view(v: Seq<String>) -> Seq<Seq<char>> {
    v.map_values(|s: String| s@)
}

/// The users taking part in an activity, in order: the poker and the poked,
/// or the new friends.
pub open spec fn participants(a: FeedActivity) -> Seq<Seq<char>> {
    match a {
        FeedActivity::Poke { from, to, .. } => seq![from.username@, to.username@],
        FeedActivity::Friendship { users, .. } => users@.map_values(|u: FeedUser| u.username@),
    }
}

/// Every participant of the feed, activity by activity, repeats included.
pub open spec fn feed_names(acts: Seq<FeedActivity>) -> Seq<Seq<char>>
    decreases acts.len(),
{
    if acts.len() == 0 {
        Seq::empty()
    } else {
        feed_names(acts.drop_last()) + participants(acts.last())
    }
}

/// The distinct names of `s`, each where it first occurs.
pub open spec fn first_seen(s: Seq<Seq<char>>) -> Seq<Seq<char>>
    decreases s.len(),
{
    if s.len() == 0 {
        Seq::empty()
    } else {
        let d = first_seen(s.drop_last());
        if d.contains(s.last()) { d } else { d.push(s.last()) }
    }
}

/// Whether `name` is among `v`.
pub fn contains_name(v: &Vec<String>, name: &str) -> (r: bool)
    ensures
        r == names_view(v@).contains(name@),
{
    let mut i: usize = 0;
    while i < v.len()
        invariant
            i <= v.len(),
            forall|j: int| 0 <= j < i ==> v@[j]@ != name@,
        decreases v.len() - i,
    {
        if str_eq(v[i].as_str(), name) {
            assert(names_view(v@)[i as int] == name@);
            return true;
        }
        i = i + 1;
    }
    assert forall|j: int| 0 <= j < names_view(v@).len() implies names_view(v@)[j] != name@ by {
        assert(names_view(v@)[j] == v@[j]@);
    }
    false
}

/// Adds `name` to `seen` unless it is there already.
fn note_name(seen: &mut Vec<String>, name: &String)
    ensures
        names_view(final(seen)@) == (if names_view(old(seen)@).contains(name@) {
            names_view(old(seen)@)
        } else {
            names_view(old(seen)@).push(name@)
        }),
{
    if !contains_name(seen, name.as_str()) {
        let ghost before = names_view(seen@);
        seen.push(name.clone());
        assert(names_view(seen@) == before.push(name@));
    }
}

/// The participants of a list of feed users, in order.
fn feed_user_names(users: &Vec<FeedUser>) -> (r: Vec<String>)
    ensures
        names_view(r@) == users@.map_values(|u: FeedUser| u.username@),
{
    let mut r: Vec<String> = Vec::new();
    let mut i: usize = 0;
    while i < users.len()
        invariant
            i <= users.len(),
            names_view(r@) == users@.take(i as int).map_values(|u: FeedUser| u.username@),
        decreases users.len() - i,
    {
        let ghost before = r@;
        r.push(users[i].username.clone());
        assert(users@.take(i + 1) == users@.take(i as int).push(users@[i as int]));
        assert(names_view(r@) == names_view(before).push(users@[i as int].username@));
        assert(users@.take(i + 1).map_values(|u: FeedUser| u.username@) == users@.take(i as int).map_values(
            |u: FeedUser| u.username@,
        ).push(users@[i as int].username@));
        i = i + 1;
    }
    assert(users@.take(users.len() as int) == users@);
    r
}

/// The participants of one activity.
fn activity_names(a: &FeedActivity) -> (r: Vec<String>)
    ensures
        names_view(r@) == participants(*a),
{
    match a {
        FeedActivity::Poke { from, to, .. } => {
            let mut r: Vec<String> = Vec::new();
            r.push(from.username.clone());
            r.push(to.username.clone());
            assert(names_view(r@) == seq![from.username@, to.username@]);
            r
        },
        FeedActivity::Friendship { users, .. } => feed_user_names(users),
    }
}

/// The distinct users of the feed, in the order they first appear, at most
/// `max` of them: the users the feed-driven poke and friend runs work on.
pub fn unique_feed_users(activities: &Vec<FeedActivity>, max: usize) -> (r: Vec<String>)
    ensures
        names_view(r@) == first_seen(feed_names(activities@)).take(
            if max <= first_seen(feed_names(activities@)).len() { max as int } else {
                first_seen(feed_names(activities@)).len() as int
            },
        ),
{
    let mut seen: Vec<String> = Vec::new();
    let mut i: usize = 0;
    while i < activities.len()
        invariant
            i <= activities.len(),
            names_view(seen@) == first_seen(feed_names(activities@.take(i as int))),
        decreases activities.len() - i,
    {
        let names = activity_names(&activities[i]);
        let ghost before = feed_names(activities@.take(i as int));
        let ghost parts = participants(activities@[i as int]);
        let mut j: usize = 0;
        while j < names.len()
            invariant
                j <= names.len(),
                names_view(names@) == parts,
                names_view(seen@) == first_seen(before + parts.take(j as int)),
            decreases names.len() - j,
        {
            let ghost prev = before + parts.take(j as int);
            note_name(&mut seen, &names[j]);
            proof {
                assert(names_view(names@)[j as int] == names@[j as int]@);
                assert(before + parts.take(j + 1) == prev.push(parts[j as int]));
                assert((before + parts.take(j + 1)).drop_last() == prev);
            }
            j = j + 1;
        }
        proof {
            assert(parts.take(names.len() as int) == parts);
            assert(activities@.take(i + 1).drop_last() == activities@.take(i as int));
            assert(activities@.take(i + 1).last() == activities@[i as int]);
        }
        i = i + 1;
    }
    assert(activities@.take(activities.len() as int) == activities@);
    let mut out: Vec<String> = Vec::new();
    let mut k: usize = 0;
    while k < seen.len() && k < max
        invariant
            k <= seen.len(),
            k <= max,
            names_view(seen@) == first_seen(feed_names(activities@)),
            names_view(out@) == names_view(seen@).take(k as int),
        decreases seen.len() - k,
    {
        let ghost before = out@;
        out.push(seen[k].clone());
        assert(names_view(out@) == names_view(before).push(seen@[k as int]@));
        assert(names_view(seen@).take(k + 1) == names_view(seen@).take(k as int).push(seen@[k as int]@));
        k = k + 1;
    }
    out
}

/// How often `name` occurs in `s`.
pub open spec fn occurrences(s: Seq<Seq<char>>, name: Seq<char>) -> nat
    decreases s.len(),
{
    if s.len() == 0 {
        0
    } else {
        occurrences(s.drop_last(), name) + if s.last() == name { 1nat } else { 0nat }
    }
}

/// Each distinct name of `s`, in the order it first occurs, with how often
/// it occurs.
pub open spec fn activity_counts(s: Seq<Seq<char>>) -> Seq<(Seq<char>, int)> {
    first_seen(s).map_values(|n: Seq<char>| (n, occurrences(s, n) as int))
}

/// A list of names with counts, as names and counts.
pub open spec fn counts_view(v: Seq<(String, u64)>) -> Seq<(Seq<char>, int)> {
    v.map_values(|p: (String, u64)| (p.0@, p.1 as int))
}

/// The count of a named count, as stored.
pub open spec fn stored_count_key() -> spec_fn((String, u64)) -> int {
    |p: (String, u64)| p.1 as int
}

/// The users gathered from the feed are distinct, and are exactly the
/// feed's participants.
pub proof fn lemma_first_seen_distinct(s: Seq<Seq<char>>)
    ensures
        forall|i: int, j: int|
            0 <= i < j < first_seen(s).len() ==> first_seen(s)[i] != first_seen(s)[j],
        forall|n: Seq<char>| first_seen(s).contains(n) <==> s.contains(n),
    decreases s.len(),
{
    if s.len() > 0 {
        let t = s.drop_last();
        lemma_first_seen_distinct(t);
        let d = first_seen(t);
        assert forall|n: Seq<char>| first_seen(s).contains(n) <==> s.contains(n) by {
            if s.contains(n) {
                let k = choose|k: int| 0 <= k < s.len() && s[k] == n;
                if k < s.len() - 1 {
                    assert(t[k] == n);
                    assert(t.contains(n));
                    assert(d.contains(n));
                    let q = choose|q: int| 0 <= q < d.len() && d[q] == n;
                    assert(first_seen(s)[q] == n);
                } else if !d.contains(n) {
                    assert(first_seen(s)[d.len() as int] == n);
                } else {
                    let q = choose|q: int| 0 <= q < d.len() && d[q] == n;
                    assert(first_seen(s)[q] == n);
                }
            }
            if first_seen(s).contains(n) {
                let k = choose|k: int| 0 <= k < first_seen(s).len() && first_seen(s)[k] == n;
                if k < d.len() {
                    assert(d[k] == n);
                    assert(d.contains(n));
                    assert(t.contains(n));
                    let m = choose|m: int| 0 <= m < t.len() && t[m] == n;
                    assert(s[m] == n);
                } else {
                    assert(s[s.len() - 1] == n);
                }
            }
        }
    }
}

/// Where `name` stands among the named counts, if it does.
fn find_count(counts: &Vec<(String, u64)>, name: &str) -> (r: Option<usize>)
    ensures
        r matches Some(p) ==> p < counts@.len() && counts@[p as int].0@ == name@,
        r is None ==> forall|j: int| 0 <= j < counts@.len() ==> counts@[j].0@ != name@,
{
    let mut p: usize = 0;
    while p < counts.len()
        invariant
            p <= counts.len(),
            forall|j: int| 0 <= j < p ==> counts@[j].0@ != name@,
        decreases counts.len() - p,
    {
        if str_eq(counts[p].0.as_str(), name) {
            return Some(p);
        }
        p = p + 1;
    }
    None
}

/// Counts each name, keeping the names in the order they first appear.
fn count_names(names: &Vec<String>) -> (r: Vec<(String, u64)>)
    ensures
        counts_view(r@) == activity_counts(names_view(names@)),
{
    let mut counts: Vec<(String, u64)> = Vec::new();
    let mut i: usize = 0;
    let total = names.len();
    assert(total as int <= u64::MAX as int);
    while i < names.len()
        invariant
            i <= names.len(),
            names@.len() <= u64::MAX,
            counts_view(counts@) == activity_counts(names_view(names@).take(i as int)),
            forall|j: int| 0 <= j < counts@.len() ==> counts@[j].1 <= i,
        decreases names.len() - i,
    {
        let ghost pre = names_view(names@).take(i as int);
        let ghost x = names@[i as int]@;
        let ghost post = names_view(names@).take(i + 1);
        proof {
            assert(post == pre.push(x));
            assert(post.drop_last() == pre);
            lemma_first_seen_distinct(pre);
            assert forall|n: Seq<char>| #[trigger] occurrences(post, n) == occurrences(pre, n) + if n == x { 1nat } else { 0nat } by {}
        }
        let ghost before = counts@;
        proof {
            assert(counts_view(before).len() == before.len());
            assert(activity_counts(pre).len() == first_seen(pre).len());
            assert(forall|j: int| 0 <= j < before.len() ==> #[trigger] counts_view(before)[j] == (before[j].0@, before[j].1 as int));
            assert(forall|j: int| 0 <= j < before.len() ==> #[trigger] activity_counts(pre)[j] == (first_seen(pre)[j], occurrences(pre, first_seen(pre)[j]) as int));
        }
        if let Some(p) = find_count(&counts, names[i].as_str()) {
            let c = counts[p].1;
            let name = counts[p].0.clone();
            counts.set(p, (name, c + 1));
            proof {
                assert(counts_view(before)[p as int].0 == x);
                assert(first_seen(pre)[p as int] == x);
                assert(first_seen(pre).contains(x));
                assert(first_seen(post) == first_seen(pre));
                assert forall|j: int| 0 <= j < counts_view(counts@).len() implies counts_view(counts@)[j]
                    == activity_counts(post)[j] by {
                    assert(counts_view(counts@)[j] == (counts@[j].0@, counts@[j].1 as int));
                    assert(activity_counts(post)[j] == (first_seen(post)[j], occurrences(post, first_seen(post)[j]) as int));
                    assert(occurrences(post, first_seen(pre)[j]) == occurrences(pre, first_seen(pre)[j]) + if first_seen(pre)[j] == x { 1nat } else { 0nat });
                    if j != p {
                        if j < p {
                            assert(first_seen(pre)[j] != first_seen(pre)[p as int]);
                        } else {
                            assert(first_seen(pre)[p as int] != first_seen(pre)[j]);
                        }
                        assert(counts@[j] == before[j]);
                        assert(counts_view(before)[j] == activity_counts(pre)[j]);
                        assert(counts_view(counts@)[j] == counts_view(before)[j]);
                        assert(first_seen(post)[j] == first_seen(pre)[j]);
                    } else {
                        assert(counts@[j].0@ == x);
                        assert(counts@[j].1 == c + 1);
                        assert(counts_view(before)[j] == activity_counts(pre)[j]);
                        assert(c == occurrences(pre, x));
                    }
                }
                assert(counts_view(counts@) == activity_counts(post));
            }
        } else {
            counts.push((names[i].clone(), 1));
            proof {
                assert forall|j: int| 0 <= j < first_seen(pre).len() implies first_seen(pre)[j] != x by {
                    assert(first_seen(pre)[j] == counts_view(before)[j].0);
                    assert(counts_view(before)[j].0 == before[j].0@);
                }
                assert(!first_seen(pre).contains(x));
                assert(!pre.contains(x));
                assert(occurrences(pre, x) == 0) by {
                    lemma_occurrences_absent(pre, x);
                }
                assert(first_seen(post) == first_seen(pre).push(x));
                assert forall|j: int| 0 <= j < counts_view(counts@).len() implies counts_view(counts@)[j]
                    == activity_counts(post)[j] by {
                    assert(counts_view(counts@)[j] == (counts@[j].0@, counts@[j].1 as int));
                    assert(activity_counts(post)[j] == (first_seen(post)[j], occurrences(post, first_seen(post)[j]) as int));
                    assert(occurrences(post, first_seen(post)[j]) == occurrences(pre, first_seen(post)[j]) + if first_seen(post)[j] == x { 1nat } else { 0nat });
                    if j < before.len() {
                        assert(first_seen(pre)[j] != x);
                        assert(counts@[j] == before[j]);
                        assert(counts_view(before)[j] == activity_counts(pre)[j]);
                        assert(first_seen(post)[j] == first_seen(pre)[j]);
                    } else {
                        assert(j == before.len());
                        assert(first_seen(post)[j] == x);
                        assert(counts@[j].0@ == x);
                        assert(counts@[j].1 == 1);
                    }
                }
                assert(counts_view(counts@) == activity_counts(post));
            }
        }
        i = i + 1;
    }
    assert(names_view(names@).take(names.len() as int) == names_view(names@));
    counts
}

proof fn lemma_occurrences_absent(s: Seq<Seq<char>>, n: Seq<char>)
    requires
        !s.contains(n),
    ensures
        occurrences(s, n) == 0,
    decreases s.len(),
{
    if s.len() > 0 {
        assert(s.last() == s[s.len() - 1]);
        assert forall|k: int| 0 <= k < s.drop_last().len() implies s.drop_last()[k] != n by {
            assert(s.drop_last()[k] == s[k]);
        }
        lemma_occurrences_absent(s.drop_last(), n);
    }
}

/// The names of `s` that are not among `ex`, in order.
pub open spec fn unexcluded(s: Seq<Seq<char>>, ex: Seq<Seq<char>>) -> Seq<Seq<char>>
    decreases s.len(),
{
    if s.len() == 0 {
        Seq::empty()
    } else if ex.contains(s.last()) {
        unexcluded(s.drop_last(), ex)
    } else {
        unexcluded(s.drop_last(), ex).push(s.last())
    }
}

/// The first `max` items of `s`, or all of them when there are fewer.
pub open spec fn at_most<T>(s: Seq<T>, max: int) -> Seq<T> {
    if max <= s.len() { s.take(max) } else { s }
}

/// The names, most active first, that a smart poke run picks: the ranked
/// names that are not excluded, at most `max` of them.
pub open spec fn pick_targets(ranked: Seq<(String, u64)>, ex: Seq<Seq<char>>, max: int) -> Seq<Seq<char>> {
    at_most(unexcluded(ranked.map_values(|p: (String, u64)| p.0@), ex), max)
}

/// `ranked` is the feed's activity counts in non-increasing order of count,
/// equal counts in the order their names first appear: the result of a
/// stable sort of the counts.
pub open spec fn is_activity_ranking(acts: Seq<FeedActivity>, ranked: Seq<(String, u64)>) -> bool {
    exists|counted: Seq<(String, u64)>|
        #[trigger] counts_view(counted) == activity_counts(feed_names(acts))
            && desc_sorted(ranked, stored_count_key())
            && same_key_classes(counted, ranked, stored_count_key())
}

fn stored_count(p: &(String, u64)) -> (r: i128)
    ensures
        r == p.1 as int,
{
    p.1 as i128
}

/// Orders named counts most active first; equal counts keep their order.
pub fn rank_by_activity(counts: &mut Vec<(String, u64)>)
    ensures
        desc_sorted(final(counts)@, stored_count_key()),
        same_key_classes(old(counts)@, final(counts)@, stored_count_key()),
{
    stable_sort_desc(counts, Ghost(stored_count_key()), stored_count);
}

/// The ranked names that are not excluded, at most `max` of them.
pub fn select_targets(ranked: &Vec<(String, u64)>, exclude: &Vec<String>, max: usize) -> (r: Vec<String>)
    ensures
        names_view(r@) == pick_targets(ranked@, names_view(exclude@), max as int),
{
    let ghost ex = names_view(exclude@);
    let ghost all = ranked@.map_values(|p: (String, u64)| p.0@);
    let mut out: Vec<String> = Vec::new();
    let mut i: usize = 0;
    while i < ranked.len()
        invariant
            i <= ranked.len(),
            ex == names_view(exclude@),
            all == ranked@.map_values(|p: (String, u64)| p.0@),
            names_view(out@) == at_most(unexcluded(all.take(i as int), ex), max as int),
        decreases ranked.len() - i,
    {
        let ghost pre = all.take(i as int);
        proof {
            assert(all.take(i + 1) == pre.push(all[i as int]));
            assert(all.take(i + 1).drop_last() == pre);
            assert(all[i as int] == ranked@[i as int].0@);
        }
        if !contains_name(exclude, ranked[i].0.as_str()) {
            if out.len() < max {
                let ghost before = out@;
                out.push(ranked[i].0.clone());
                proof {
                    assert(names_view(out@) == names_view(before).push(ranked@[i as int].0@));
                    assert(unexcluded(pre, ex).len() == names_view(before).len());
                }
            }
        }
        i = i + 1;
    }
    assert(all.take(ranked.len() as int) == all);
    out
}

/// The users a smart poke run picks from the feed: every participant
/// counted, the counts ranked most active first, the excluded names
/// dropped, at most `max` names kept.
pub fn smart_poke_targets(activities: &Vec<FeedActivity>, max: usize, exclude: &Vec<String>) -> (r: Vec<String>)
    ensures
        exists|ranked: Seq<(String, u64)>|
            #[trigger] is_activity_ranking(activities@, ranked)
                && names_view(r@) == pick_targets(ranked, names_view(exclude@), max as int),
{
    let names = all_feed_names(activities);
    let mut counts = count_names(&names);
    let ghost counted = counts@;
    rank_by_activity(&mut counts);
    let r = select_targets(&counts, exclude, max);
    assert(is_activity_ranking(activities@, counts@));
    r
}

/// Every participant of the feed, repeats included.
fn all_feed_names(activities: &Vec<FeedActivity>) -> (r: Vec<String>)
    ensures
        names_view(r@) == feed_names(activities@),
{
    let mut out: Vec<String> = Vec::new();
    let mut i: usize = 0;
    while i < activities.len()
        invariant
            i <= activities.len(),
            names_view(out@) == feed_names(activities@.take(i as int)),
        decreases activities.len() - i,
    {
        let mut names = activity_names(&activities[i]);
        let ghost before = names_view(out@);
        let ghost added = names_view(names@);
        out.append(&mut names);
        proof {
            assert(names_view(out@) == before + added);
            assert(activities@.take(i + 1).drop_last() == activities@.take(i as int));
            assert(activities@.take(i + 1).last() == activities@[i as int]);
        }
        i = i + 1;
    }
    assert(activities@.take(activities.len() as int) == activities@);
    out
}

/// Why no feed data could be framed in a reply.
#[derive(Debug, PartialEq, Eq, Structural, Clone, Copy)]
pub enum FeedFrameError {
    /// The reply holds no `["recent",` array.
    NoFeedData,
    /// The array never closes.
    UnclosedArray,
}

/// The text that opens the feed's data in a Socket.IO reply.
pub open spec fn recent_marker() -> Seq<char> {
    seq!['[', '"', 'r', 'e', 'c', 'e', 'n', 't', '"', ',']
}

/// Scanning `s` from `i` with `depth` brackets open: the position just after
/// the `]` that closes the last open bracket, if there is one.
pub open spec fn bracket_close(s: Seq<char>, i: nat, depth: int) -> Option<nat>
    decreases s.len() - i,
{
    if i >= s.len() {
        None
    } else if s[i as int] == '[' {
        bracket_close(s, i + 1, depth + 1)
    } else if s[i as int] == ']' {
        if depth - 1 == 0 { Some(i + 1) } else { bracket_close(s, i + 1, depth - 1) }
    } else {
        bracket_close(s, i + 1, depth)
    }
}

/// The number of bytes of a character in UTF-8.
pub open spec fn utf8_width(c: char) -> nat {
    if (c as u32) < 0x80 { 1 } else if (c as u32) < 0x800 { 2 } else if (c as u32) < 0x10000 { 3 } else { 4 }
}

/// The number of bytes of a text in UTF-8.
pub open spec fn utf8_len(s: Seq<char>) -> nat
    decreases s.len(),
{
    if s.len() == 0 { 0 } else { utf8_len(s.drop_last()) + utf8_width(s.last()) }
}

/// Searching from `k` characters on: how many characters of `s` make up its
/// first `n` bytes, if `n` falls between two characters.
pub open spec fn chars_in_bytes(s: Seq<char>, n: int, k: nat) -> Option<nat>
    decreases s.len() - k,
{
    if k > s.len() {
        None
    } else if utf8_len(s.take(k as int)) == n {
        Some(k)
    } else if utf8_len(s.take(k as int)) > n || k == s.len() {
        None
    } else {
        chars_in_bytes(s, n, k + 1)
    }
}

/// The feed data in a reply: from the first `["recent",` to the bracket that
/// closes it. The end is counted in characters and then taken as a count of
/// bytes, so that before it every character must be one byte long for the
/// whole array to be kept; the cut must fall between two characters.
pub open spec fn recent_frame(body: Seq<char>) -> Option<Result<Seq<char>, FeedFrameError>> {
    match find(body, recent_marker()) {
        None => Some(Err(FeedFrameError::NoFeedData)),
        Some(start) => {
            let json = body.skip(start);
            match bracket_close(json, 0, 0) {
                None => Some(Err(FeedFrameError::UnclosedArray)),
                Some(e) => match chars_in_bytes(json, e as int, 0) {
                    Some(k) => Some(Ok(json.take(k as int))),
                    None => None,
                },
            }
        },
    }
}

fn width_of(c: char) -> (w: usize)
    ensures
        w == utf8_width(c),
{
    let u = c as u32;
    if u < 0x80 { 1 } else if u < 0x800 { 2 } else if u < 0x10000 { 3 } else { 4 }
}

proof fn lemma_utf8_len_step(s: Seq<char>, k: int)
    requires
        0 <= k < s.len(),
    ensures
        utf8_len(s.take(k + 1)) == utf8_len(s.take(k)) + utf8_width(s[k]),
{
    assert(s.take(k + 1).drop_last() == s.take(k));
    assert(s.take(k + 1).last() == s[k]);
}

proof fn lemma_chars_in_bytes_bound(s: Seq<char>, n: int, k: nat)
    ensures
        chars_in_bytes(s, n, k) matches Some(j) ==> j <= s.len(),
    decreases s.len() - k,
{
    if k <= s.len() && utf8_len(s.take(k as int)) != n && !(utf8_len(s.take(k as int)) > n
        || k == s.len()) {
        lemma_chars_in_bytes_bound(s, n, k + 1);
    }
}

/// How many characters of `s` make up its first `n` bytes.
fn chars_in_bytes_exec(s: &Vec<char>, n: usize) -> (r: Option<usize>)
    ensures
        r matches Some(k) ==> k <= s@.len() && chars_in_bytes(s@, n as int, 0) == Some(k as nat),
        r is None <==> chars_in_bytes(s@, n as int, 0) is None,
{
    proof {
        lemma_chars_in_bytes_bound(s@, n as int, 0);
    }
    let mut k: usize = 0;
    let mut acc: usize = 0;
    while k < s.len() && acc < n
        invariant
            k <= s.len(),
            acc == utf8_len(s@.take(k as int)),
            acc <= n,
            chars_in_bytes(s@, n as int, 0) == chars_in_bytes(s@, n as int, k as nat),
        decreases s.len() - k,
    {
        proof {
            lemma_utf8_len_step(s@, k as int);
        }
        let w = width_of(s[k]);
        if w > n - acc {
            proof {
                assert(chars_in_bytes(s@, n as int, (k + 1) as nat) == None::<nat>) by {
                    lemma_no_cut_after(s@, n as int, (k + 1) as nat);
                }
            }
            return None;
        }
        acc = acc + w;
        k = k + 1;
    }
    if acc == n {
        Some(k)
    } else {
        None
    }
}

proof fn lemma_no_cut_after(s: Seq<char>, n: int, k: nat)
    requires
        k <= s.len(),
        utf8_len(s.take(k as int)) > n,
    ensures
        chars_in_bytes(s, n, k) == None::<nat>,
    decreases s.len() - k,
{
    if k < s.len() {
        lemma_utf8_len_step(s, k as int);
        lemma_no_cut_after(s, n, k + 1);
    }
}

/// Scans for the bracket that closes the array opened at the start.
fn bracket_close_exec(s: &Vec<char>) -> (r: Option<usize>)
    requires
        s@.len() <= i32::MAX,
    ensures
        r matches Some(e) ==> bracket_close(s@, 0, 0) == Some(e as nat),
        r is None <==> bracket_close(s@, 0, 0) is None,
{
    let mut depth: i32 = 0;
    let mut i: usize = 0;
    while i < s.len()
        invariant
            i <= s.len(),
            s@.len() <= i32::MAX,
            -(i as int) <= depth <= i,
            bracket_close(s@, 0, 0) == bracket_close(s@, i as nat, depth as int),
        decreases s.len() - i,
    {
        let c = s[i];
        if c == '[' {
            depth = depth + 1;
        } else if c == ']' {
            depth = depth - 1;
            if depth == 0 {
                return Some(i + 1);
            }
        }
        i = i + 1;
    }
    None
}

/// Whether framing the feed in `body` cuts between two characters, as it
/// must (see `recent_frame`).
pub fn recent_frame_defined(body: &str) -> (r: bool)
    requires
        body@.len() <= i32::MAX,
    ensures
        r == recent_frame(body@) is Some,
{
    match frame_parts(body) {
        None => true,
        Some((json, e)) => chars_in_bytes_exec(&json, e).is_some(),
    }
}

/// The text from the first `["recent",` on, and where its array closes;
/// `None` when either is missing.
fn frame_parts(body: &str) -> (r: Option<(Vec<char>, usize)>)
    requires
        body@.len() <= i32::MAX,
    ensures
        match r {
            None => true,
            Some((json, e)) => {
                &&& find(body@, recent_marker()) matches Some(start) && json@ == body@.skip(start)
                &&& bracket_close(json@, 0, 0) == Some(e as nat)
                &&& recent_frame(body@) == (match chars_in_bytes(json@, e as int, 0) {
                    Some(k) => Some(Ok::<Seq<char>, FeedFrameError>(json@.take(k as int))),
                    None => None,
                })
            },
        },
        r is None ==> recent_frame(body@) == Some(Err::<Seq<char>, FeedFrameError>(frame_error(body@))),
{
    let cs = chars_of(body);
    let marker = recent_marker_chars();
    match find_chars(&cs, &marker, 0) {
        None => None,
        Some(start) => {
            let json = sub_chars(&cs, start, cs.len());
            assert(json@ == body@.skip(start as int));
            match bracket_close_exec(&json) {
                None => None,
                Some(e) => Some((json, e)),
            }
        },
    }
}

/// Why framing fails, when it fails before the cut.
pub open spec fn frame_error(body: Seq<char>) -> FeedFrameError {
    if find(body, recent_marker()) is None { FeedFrameError::NoFeedData } else { FeedFrameError::UnclosedArray }
}

fn recent_marker_chars() -> (v: Vec<char>)
    ensures
        v@ == recent_marker(),
{
    let v = vec!['[', '"', 'r', 'e', 'c', 'e', 'n', 't', '"', ','];
    assert(v@ == recent_marker());
    v
}

/// The feed data in a Socket.IO reply: the `["recent", ...]` array, or why
/// there is none.
pub fn frame_recent_feed(body: &str) -> (r: Result<String, FeedFrameError>)
    requires
        body@.len() <= i32::MAX,
        recent_frame(body@) is Some,
    ensures
        recent_frame(body@) == Some(match r { Ok(s) => Ok(s@), Err(e) => Err(e) }),
{
    match frame_parts(body) {
        None => {
            if find_recent(body) {
                Err(FeedFrameError::UnclosedArray)
            } else {
                Err(FeedFrameError::NoFeedData)
            }
        },
        Some((json, e)) => match chars_in_bytes_exec(&json, e) {
            Some(k) => {
                let framed = sub_chars(&json, 0, k);
                assert(framed@ == json@.take(k as int));
                Ok(string_from_chars(&framed))
            },
            None => Err(FeedFrameError::UnclosedArray),
        },
    }
}

/// Why a reply yields no feed activities.
#[derive(Debug, PartialEq, Eq, Structural, Clone, Copy)]
pub enum FeedParseError {
    /// No `["recent", [...]]` data: no marker, or the array is not shaped so.
    NoFeedData,
    /// The array never closes.
    UnclosedArray,
    /// The framed array is not JSON.
    NotJson,
}

/// The activity list of the framed array, as JSON text: the array's second
/// item, when the text is a JSON array of at least two items.
pub open spec fn feed_list_spec(top: Option<Option<Seq<Seq<char>>>>) -> Result<Seq<char>, FeedParseError> {
    match top {
        None => Err(FeedParseError::NotJson),
        Some(None) => Err(FeedParseError::NoFeedData),
        Some(Some(items)) => if items.len() >= 2 {
            Ok(items[1])
        } else {
            Err(FeedParseError::NoFeedData)
        },
    }
}

/// The activities of the list, each as JSON text, when the list is an array.
pub open spec fn feed_entries_spec(list: Option<Option<Seq<Seq<char>>>>) -> Result<Seq<Seq<char>>, FeedParseError> {
    match list {
        Some(Some(entries)) => Ok(entries),
        _ => Err(FeedParseError::NoFeedData),
    }
}

/// The feed activities of a Socket.IO reply, each as JSON text, in order:
/// the reply is framed, the frame read as a JSON array, and its second item
/// read as the array of activities.
pub open spec fn feed_response_spec(body: Seq<char>) -> Result<Seq<Seq<char>>, FeedParseError> {
    match recent_frame(body) {
        Some(Err(FeedFrameError::NoFeedData)) => Err(FeedParseError::NoFeedData),
        Some(Err(FeedFrameError::UnclosedArray)) => Err(FeedParseError::UnclosedArray),
        Some(Ok(json)) => match feed_list_spec(json_array_items_of(json)) {
            Err(e) => Err(e),
            Ok(list) => feed_entries_spec(json_array_items_of(list)),
        },
        None => Err(FeedParseError::NoFeedData),
    }
}

/// Picks the activity list out of what the JSON reader made of the framed
/// array.
pub fn feed_list(top: Option<Option<Vec<String>>>) -> (r: Result<String, FeedParseError>)
    ensures
        feed_list_spec(match top {
            None => None,
            Some(None) => Some(None),
            Some(Some(v)) => Some(Some(v@.map_values(|s: String| s@))),
        }) == match r { Ok(s) => Ok(s@), Err(e) => Err(e) },
{
    match top {
        None => Err(FeedParseError::NotJson),
        Some(None) => Err(FeedParseError::NoFeedData),
        Some(Some(mut items)) => {
            if items.len() >= 2 {
                let ghost before = items@;
                let second = items.swap_remove(1);
                assert(second@ == before.map_values(|s: String| s@)[1]);
                Ok(second)
            } else {
                Err(FeedParseError::NoFeedData)
            }
        },
    }
}

/// Takes the activities out of what the JSON reader made of the list.
pub fn feed_entries(list: Option<Option<Vec<String>>>) -> (r: Result<Vec<String>, FeedParseError>)
    ensures
        feed_entries_spec(match list {
            None => None,
            Some(None) => Some(None),
            Some(Some(v)) => Some(Some(v@.map_values(|s: String| s@))),
        }) == match r { Ok(v) => Ok(v@.map_values(|s: String| s@)), Err(e) => Err(e) },
{
    match list {
        Some(Some(entries)) => Ok(entries),
        _ => Err(FeedParseError::NoFeedData),
    }
}

/// The feed activities of a Socket.IO reply, each as the JSON text of one
/// activity, in order; or why there are none.
pub fn parse_feed_response(body: &str) -> (r: Result<Vec<String>, FeedParseError>)
    requires
        body@.len() <= i32::MAX,
        recent_frame(body@) is Some,
    ensures
        feed_response_spec(body@) == match r { Ok(v) => Ok(v@.map_values(|s: String| s@)), Err(e) => Err(e) },
{
    let json = match frame_recent_feed(body) {
        Ok(json) => json,
        Err(FeedFrameError::NoFeedData) => return Err(FeedParseError::NoFeedData),
        Err(FeedFrameError::UnclosedArray) => return Err(FeedParseError::UnclosedArray),
    };
    let list = match feed_list(json_array_items(json.as_str())) {
        Ok(list) => list,
        Err(e) => return Err(e),
    };
    feed_entries(json_array_items(list.as_str()))
}

fn find_recent(body: &str) -> (r: bool)
    ensures
        r == find(body@, recent_marker()) is Some,
{
    let cs = chars_of(body);
    let marker = recent_marker_chars();
    find_chars(&cs, &marker, 0).is_some()
}

/// The JSON of a Socket.IO open packet: the reply without its leading `0`s.
pub open spec fn without_leading_zeros(s: Seq<char>) -> Seq<char>
    decreases s.len(),
{
    if s.len() > 0 && s[0] == '0' { without_leading_zeros(s.drop_first()) } else { s }
}

/// Strips the leading `0`s of a Socket.IO open packet.
pub fn socket_json_part(body: &str) -> (r: String)
    ensures
        r@ == without_leading_zeros(body@),
{
    let cs = chars_of(body);
    let mut i: usize = 0;
    assert(cs@.skip(0) == cs@);
    while i < cs.len() && cs[i] == '0'
        invariant
            i <= cs.len(),
            without_leading_zeros(cs@) == without_leading_zeros(cs@.skip(i as int)),
        decreases cs.len() - i,
    {
        assert(cs@.skip(i as int).drop_first() == cs@.skip(i + 1));
        i = i + 1;
    }
    let rest = sub_chars(&cs, i, cs.len());
    assert(rest@ == cs@.skip(i as int));
    string_from_chars(&rest)
}

/// A smart poke run never picks an excluded user.
pub proof fn law_excluded_never_picked(ranked: Seq<(String, u64)>, ex: Seq<Seq<char>>, max: int, n: Seq<char>)
    requires
        ex.contains(n),
        0 <= max,
    ensures
        !pick_targets(ranked, ex, max).contains(n),
{
    let all = ranked.map_values(|p: (String, u64)| p.0@);
    lemma_unexcluded_avoids(all, ex, n);
    let u = unexcluded(all, ex);
    if pick_targets(ranked, ex, max).contains(n) {
        let k = choose|k: int| 0 <= k < pick_targets(ranked, ex, max).len() && pick_targets(ranked, ex, max)[k] == n;
        if max <= u.len() {
            assert(u.take(max)[k] == u[k]);
        }
        assert(u[k] == n);
    }
}

proof fn lemma_unexcluded_avoids(s: Seq<Seq<char>>, ex: Seq<Seq<char>>, n: Seq<char>)
    requires
        ex.contains(n),
    ensures
        !unexcluded(s, ex).contains(n),
    decreases s.len(),
{
    if s.len() > 0 {
        lemma_unexcluded_avoids(s.drop_last(), ex, n);
        let prev = unexcluded(s.drop_last(), ex);
        if !ex.contains(s.last()) {
            let u = prev.push(s.last());
            if u.contains(n) {
                let k = choose|k: int| 0 <= k < u.len() && u[k] == n;
                if k < prev.len() {
                    assert(prev[k] == n);
                }
            }
        }
    }
}

} // verus!
