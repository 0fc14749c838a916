//! The friends database: one record per known username, with when they were
//! last poked and whether a friend request went out. Reading and writing the
//! records' file is the caller's business; this holds and updates them.

use vstd::prelude::*;
use crate::clock::{unix_seconds_now, CLOCK_SECONDS_BOUND};
use crate::text::str_eq;

verus! {

/// User record in the friends database
#[derive(Debug)]
pub struct UserRecord {
    pub username: String,
    pub last_poke: Option<i64>,
    pub friend_request_sent: bool,
    pub friend_request_date: Option<i64>,
    pub notes: Option<String>,
}

impl Clone for UserRecord {
    fn clone(&self) -> (r: Self)
        ensures
            r == *self,
    {
        let notes = match &self.notes {
            Some(n) => Some(n.clone()),
            None => None,
        };
        UserRecord {
            username: self.username.clone(),
            last_poke: self.last_poke,
            friend_request_sent: self.friend_request_sent,
            friend_request_date: self.friend_request_date,
            notes,
        }
    }
}

/// Database statistics
#[derive(Debug)]
pub struct DatabaseStats {
    pub total_users: usize,
    pub poked_at_least_once: usize,
    pub pokeable_now: usize,
    pub friend_requests_sent: usize,
    pub need_friend_request: usize,
}

/// Sync statistics
#[derive(Debug)]
pub struct SyncStats {
    pub initial_count: usize,
    pub final_count: usize,
    pub added: usize,
    pub removed: usize,
}

/// Next pokeable user information
#[derive(Debug)]
pub struct NextPokeableUser {
    pub username: String,
    pub time_until_pokeable: u64,
}

/// Friends database manager: the records, and the file they are kept in.
pub struct FriendsDatabase {
    file_path: String,
    records: Vec<UserRecord>,
}

/// A day, in seconds: how long after a poke a user can be poked again.
pub const DAY_SECONDS: i64 = 86400;

/// The username of a record, as characters.
pub open spec fn record_name() -> spec_fn(UserRecord) -> Seq<char> {
    |r: UserRecord| r.username@
}

/// A string's characters.
pub open spec fn string_view() -> spec_fn(String) -> Seq<char> {
    |s: String| s@
}

/// No two records share a username.
pub open spec fn unique_names(s: Seq<UserRecord>) -> bool {
    forall|i: int, j: int|
        0 <= i < j < s.len() ==> (#[trigger] s[i]).username@ != (#[trigger] s[j]).username@
}

/// Some record has the username `name`.
pub open spec fn has_name(s: Seq<UserRecord>, name: Seq<char>) -> bool {
    exists|i: int| 0 <= i < s.len() && (#[trigger] s[i]).username@ == name
}

/// A record as `add_username` creates it: the name, never poked, no friend
/// request, no notes.
pub open spec fn is_fresh_record(r: UserRecord, name: Seq<char>) -> bool {
    &&& r.username@ == name
    &&& r.last_poke is None
    &&& !r.friend_request_sent
    &&& r.friend_request_date is None
    &&& r.notes is None
}

/// The names, in order, that adding `names` one by one to a database holding
/// `existing` would add: each name not yet present and not added before.
pub open spec fn new_names(existing: Seq<Seq<char>>, names: Seq<Seq<char>>) -> Seq<Seq<char>>
    decreases names.len(),
{
    if names.len() == 0 {
        Seq::empty()
    } else {
        let prev = new_names(existing, names.drop_last());
        let n = names.last();
        if existing.contains(n) || prev.contains(n) {
            prev
        } else {
            prev.push(n)
        }
    }
}

/// `after` is `before` followed by one fresh record per name of `added`.
pub open spec fn extended_with(before: Seq<UserRecord>, after: Seq<UserRecord>, added: Seq<Seq<char>>) -> bool {
    &&& after.len() == before.len() + added.len()
    &&& after.take(before.len() as int) == before
    &&& forall|j: int|
        0 <= j < added.len() ==> is_fresh_record(#[trigger] after[before.len() + j], added[j])
}

/// The predicate "is among `names`".
pub open spec fn named_in(names: Seq<Seq<char>>) -> spec_fn(UserRecord) -> bool {
    |r: UserRecord| names.contains(r.username@)
}

/// A user can be poked at `now`: never poked, or poked a day or more ago.
pub open spec fn pokeable_at(now: i64) -> spec_fn(UserRecord) -> bool {
    |r: UserRecord|
        match r.last_poke {
            None => true,
            Some(last) => now - last >= DAY_SECONDS,
        }
}

/// The record has been poked at least once.
pub open spec fn poked() -> spec_fn(UserRecord) -> bool {
    |r: UserRecord| r.last_poke is Some
}

/// No friend request has gone to this user yet.
pub open spec fn needs_friend_request() -> spec_fn(UserRecord) -> bool {
    |r: UserRecord| !r.friend_request_sent
}

/// The seconds until a poked user can be poked again at `now` (zero or less
/// when they already can).
pub open spec fn wait_at(last: i64, now: i64) -> int {
    DAY_SECONDS - (now - last)
}

/// Every poke time is one the arithmetic at `now` can handle.
pub open spec fn poke_times_fit(s: Seq<UserRecord>, now: i64) -> bool {
    forall|i: int|
        0 <= i < s.len() ==> ((#[trigger] s[i]).last_poke matches Some(last) ==> {
            &&& i64::MIN <= now - last <= i64::MAX
            &&& i64::MIN <= wait_at(last, now) <= i64::MAX
        })
}

/// Every poke time is one the arithmetic can handle at any instant the clock
/// can give.
pub open spec fn poke_times_sane(s: Seq<UserRecord>) -> bool {
    forall|i: int|
        0 <= i < s.len() ==> ((#[trigger] s[i]).last_poke matches Some(last) ==> {
            &&& CLOCK_SECONDS_BOUND - i64::MAX <= last
            &&& last <= i64::MAX - DAY_SECONDS
        })
}

/// The records after a poke of `name` at `t`.
pub open spec fn with_poke(s: Seq<UserRecord>, name: Seq<char>, t: i64) -> Seq<UserRecord> {
    s.map_values(
        |r: UserRecord|
            if r.username@ == name {
                UserRecord { last_poke: Some(t), ..r }
            } else {
                r
            },
    )
}

/// The records after a friend request to `name` at `t`.
pub open spec fn with_friend_request(s: Seq<UserRecord>, name: Seq<char>, t: i64) -> Seq<UserRecord> {
    s.map_values(
        |r: UserRecord|
            if r.username@ == name {
                UserRecord { friend_request_sent: true, friend_request_date: Some(t), ..r }
            } else {
                r
            },
    )
}

/// The value the search for the next pokeable user ranks a poked record by
/// at `now`: its wait; when `ready_counts`, a user who can already be poked
/// counts as a wait of zero.
pub open spec fn next_key(r: UserRecord, now: i64, ready_counts: bool) -> int {
    let w = wait_at(r.last_poke->0, now);
    if ready_counts && w <= 0 {
        0
    } else {
        w
    }
}

/// The record takes part in the search: it has been poked, it is still
/// cooling down (or `ready_counts`), and its key is below `i64::MAX`, the
/// search's starting bound.
pub open spec fn next_eligible(r: UserRecord, now: i64, ready_counts: bool) -> bool {
    &&& r.last_poke is Some
    &&& (ready_counts || wait_at(r.last_poke->0, now) > 0)
    &&& next_key(r, now, ready_counts) < i64::MAX
}

/// `n` is the answer of the search over `s`: the first eligible record with
/// the smallest key, with that key as the time until it can be poked.
pub open spec fn is_next_user(s: Seq<UserRecord>, now: i64, ready_counts: bool, n: NextPokeableUser) -> bool {
    exists|i: int|
        0 <= i < s.len() && #[trigger] next_eligible(s[i], now, ready_counts) && n.username@
            == s[i].username@ && n.time_until_pokeable == next_key(s[i], now, ready_counts) as u64
            && (forall|j: int|
            0 <= j < s.len() && #[trigger] next_eligible(s[j], now, ready_counts) ==> next_key(
                s[i],
                now,
                ready_counts,
            ) <= next_key(s[j], now, ready_counts)) && (forall|j: int|
            0 <= j < i && #[trigger] next_eligible(s[j], now, ready_counts) ==> next_key(
                s[j],
                now,
                ready_counts,
            ) > next_key(s[i], now, ready_counts))
}

/// `r` is the answer of the search over `s` at `now`: none exactly when no
/// record is eligible, otherwise the first eligible record with the smallest
/// key.
pub open spec fn next_user_answer(s: Seq<UserRecord>, now: i64, ready_counts: bool, r: Option<NextPokeableUser>) -> bool {
    &&& r is None == forall|j: int| 0 <= j < s.len() ==> !#[trigger] next_eligible(s[j], now, ready_counts)
    &&& r matches Some(n) ==> is_next_user(s, now, ready_counts, n)
}

/// The last record named `n` in `s`.
pub open spec fn last_named(s: Seq<UserRecord>, n: Seq<char>) -> UserRecord
    decreases s.len(),
{
    if s.len() == 0 {
        arbitrary()
    } else if s.last().username@ == n {
        s.last()
    } else {
        last_named(s.drop_last(), n)
    }
}

proof fn lemma_sane_fits(s: Seq<UserRecord>, now: i64)
    requires
        poke_times_sane(s),
        0 <= now < CLOCK_SECONDS_BOUND,
    ensures
        poke_times_fit(s, now),
{
    assert forall|i: int| 0 <= i < s.len() implies ((#[trigger] s[i]).last_poke matches Some(last) ==> {
        &&& i64::MIN <= now - last <= i64::MAX
        &&& i64::MIN <= wait_at(last, now) <= i64::MAX
    }) by {
        if s[i].last_poke is Some {
            let last = s[i].last_poke->0;
            assert(CLOCK_SECONDS_BOUND - i64::MAX <= last <= i64::MAX - DAY_SECONDS);
        }
    }
}

proof fn lemma_take_push<T>(s: Seq<T>, i: int)
    requires
        0 <= i < s.len(),
    ensures
        s.take(i + 1) == s.take(i).push(s[i]),
{
    assert(s.take(i + 1) == s.take(i).push(s[i]));
}

fn slice_has_name(v: &[String], name: &String) -> (r: bool)
    ensures
        r == v@.map_values(string_view()).contains(name@),
{
    let mut i: usize = 0;
    while i < v.len()
        invariant
            i <= v@.len(),
            forall|j: int| 0 <= j < i ==> v@[j]@ != name@,
        decreases v@.len() - i,
    {
        if v[i] == *name {
            assert(v@.map_values(string_view())[i as int] == name@);
            return true;
        }
        i = i + 1;
    }
    assert(!v@.map_values(string_view()).contains(name@)) by {
        if v@.map_values(string_view()).contains(name@) {
            let k = choose|k: int| 0 <= k < v@.len() && v@.map_values(string_view())[k] == name@;
            assert(v@[k]@ == name@);
        }
    }
    false
}

impl View for FriendsDatabase {
    type V = Seq<UserRecord>;

    closed spec fn view(&self) -> Seq<UserRecord> {
        self.records@
    }
}

impl FriendsDatabase {
    /// The records are well formed: no username twice.
    pub closed spec fn wf(&self) -> bool {
        unique_names(self.records@)
    }

    /// A well-formed database holds each username once.
    pub proof fn lemma_wf_unique_names(&self)
        requires
            self.wf(),
        ensures
            unique_names(self@),
    {
    }

    /// The path of the file the records are kept in.
    pub closed spec fn path(&self) -> Seq<char> {
        self.file_path@
    }

    /// An empty database kept in `file_path`.
    pub fn new(file_path: &str) -> (db: Self)
        ensures
            db.wf(),
            db@ == Seq::<UserRecord>::empty(),
            db.path() == file_path@,
    {
        Self { file_path: file_path.to_owned(), records: Vec::new() }
    }

    /// The file the records are kept in.
    pub fn file_path(&self) -> (r: &str)
        ensures
            r@ == self.path(),
    {
        self.file_path.as_str()
    }

    /// The records, in order.
    pub fn records(&self) -> (r: &Vec<UserRecord>)
        ensures
            r@ == self@,
    {
        &self.records
    }

    /// The index of the record named `name`, if there is one.
    fn position(&self, name: &str) -> (r: Option<usize>)
        ensures
            r is Some == has_name(self@, name@),
            r matches Some(i) ==> i < self@.len() && self@[i as int].username@ == name@,
            r matches Some(i) ==> forall|j: int| 0 <= j < i ==> self@[j].username@ != name@,
    {
        let mut i: usize = 0;
        while i < self.records.len()
            invariant
                i <= self.records@.len(),
                forall|j: int| 0 <= j < i ==> self.records@[j].username@ != name@,
            decreases self.records@.len() - i,
        {
            if str_eq(self.records[i].username.as_str(), name) {
                return Some(i);
            }
            i = i + 1;
        }
        None
    }

    /// Adds a fresh record for `name` unless the name is already present;
    /// returns whether it was added.
    fn insert_name(&mut self, name: &str) -> (added: bool)
        requires
            old(self).wf(),
        ensures
            final(self).wf(),
            final(self).path() == old(self).path(),
            added == !has_name(old(self)@, name@),
            added ==> extended_with(old(self)@, final(self)@, seq![name@]),
            !added ==> final(self)@ == old(self)@,
    {
        if self.position(name).is_some() {
            return false;
        }
        let record = UserRecord {
            username: name.to_owned(),
            last_poke: None,
            friend_request_sent: false,
            friend_request_date: None,
            notes: None,
        };
        let ghost before = self.records@;
        self.records.push(record);
        proof {
            assert(self.records@.take(before.len() as int) == before);
            assert(self.records@[before.len() as int] == record);
            assert forall|i: int, j: int|
                0 <= i < j < self.records@.len() implies (#[trigger] self.records@[i]).username@
                != (#[trigger] self.records@[j]).username@ by {
                if j == before.len() {
                    assert(self.records@[i] == before[i]);
                }
            }
        }
        true
    }

    /// How many usernames the database holds.
    pub fn count(&self) -> (r: usize)
        ensures
            r == self@.len(),
    {
        self.records.len()
    }

    /// Adds `username` unless it is already known; returns whether it was
    /// added.
    pub fn add_username(&mut self, username: &str) -> (added: bool)
        requires
            old(self).wf(),
        ensures
            final(self).wf(),
            final(self).path() == old(self).path(),
            added == !has_name(old(self)@, username@),
            added ==> extended_with(old(self)@, final(self)@, seq![username@]),
            !added ==> final(self)@ == old(self)@,
            has_name(final(self)@, username@),
    {
        let added = self.insert_name(username);
        proof {
            if added {
                let k = old(self)@.len() as int;
                assert(is_fresh_record(self@[k + 0], seq![username@][0]));
                assert(self@[k].username@ == username@);
            }
        }
        added
    }

    /// Adds each username not yet known, in order; returns how many were
    /// added.
    pub fn add_usernames(&mut self, usernames: &[String]) -> (added: usize)
        requires
            old(self).wf(),
        ensures
            final(self).wf(),
            final(self).path() == old(self).path(),
            extended_with(
                old(self)@,
                final(self)@,
                new_names(
                    old(self)@.map_values(record_name()),
                    usernames@.map_values(string_view()),
                ),
            ),
            added == new_names(
                old(self)@.map_values(record_name()),
                usernames@.map_values(string_view()),
            ).len(),
    {
        let ghost start = self@;
        let ghost existing = start.map_values(record_name());
        let ghost names = usernames@.map_values(string_view());
        let mut added: usize = 0;
        let mut i: usize = 0;
        proof {
            assert(names.take(0) == Seq::<Seq<char>>::empty());
            assert(self@.take(start.len() as int) == start);
        }
        while i < usernames.len()
            invariant
                self.wf(),
                self.path() == old(self).path(),
                start == old(self)@,
                existing == start.map_values(record_name()),
                names == usernames@.map_values(string_view()),
                i <= usernames@.len(),
                extended_with(start, self@, new_names(existing, names.take(i as int))),
                added == new_names(existing, names.take(i as int)).len(),
                added <= i,
            decreases usernames@.len() - i,
        {
            let ghost prev_names = new_names(existing, names.take(i as int));
            let ghost before = self@;
            let name = usernames[i].as_str();
            proof {
                assert(names.take(i as int + 1).drop_last() == names.take(i as int));
                assert(names.take(i as int + 1).last() == name@);
                // a name is present now exactly when it was there at the start
                // or has been added since
                assert(has_name(before, name@) == (existing.contains(name@) || prev_names.contains(name@))) by {
                    if has_name(before, name@) {
                        let k = choose|k: int| 0 <= k < before.len() && (#[trigger] before[k]).username@ == name@;
                        if k < start.len() {
                            assert(before.take(start.len() as int)[k] == start[k]);
                            assert(existing[k] == name@);
                        } else {
                            assert(is_fresh_record(before[start.len() + (k - start.len())], prev_names[k - start.len()]));
                            assert(prev_names[k - start.len()] == name@);
                        }
                    }
                    if existing.contains(name@) {
                        let k = choose|k: int| 0 <= k < existing.len() && existing[k] == name@;
                        assert(before.take(start.len() as int)[k] == start[k]);
                        assert(before[k].username@ == name@);
                    }
                    if prev_names.contains(name@) {
                        let k = choose|k: int| 0 <= k < prev_names.len() && prev_names[k] == name@;
                        assert(is_fresh_record(before[start.len() + k], prev_names[k]));
                    }
                }
            }
            if self.insert_name(name) {
                added = added + 1;
                proof {
                    let now_names = prev_names.push(name@);
                    assert(self@.take(start.len() as int) == start) by {
                        assert(self@.take(before.len() as int) == before);
                        assert(before.take(start.len() as int) == start);
                    }
                    assert forall|j: int| 0 <= j < now_names.len() implies is_fresh_record(#[trigger] self@[start.len() + j], now_names[j]) by {
                        if j < prev_names.len() {
                            assert(self@.take(before.len() as int)[start.len() + j] == before[start.len() + j]);
                        } else {
                            let z: int = 0;
                            assert(is_fresh_record(self@[before.len() + z], seq![name@][z]));
                        }
                    }
                }
            }
            i = i + 1;
        }
        assert(names.take(usernames@.len() as int) == names);
        added
    }

    /// Keeps only the records whose username is in `keep`, in their order;
    /// returns how many were removed.
    fn retain_named(&mut self, keep: &[String]) -> (removed: usize)
        requires
            old(self).wf(),
        ensures
            final(self).wf(),
            final(self).path() == old(self).path(),
            final(self)@ == old(self)@.filter(named_in(keep@.map_values(string_view()))),
            removed == old(self)@.len() - final(self)@.len(),
    {
        let ghost keep_names = keep@.map_values(string_view());
        let ghost pred = named_in(keep_names);
        let mut old_records: Vec<UserRecord> = Vec::new();
        std::mem::swap(&mut old_records, &mut self.records);
        let ghost start = old_records@;
        let mut kept: Vec<UserRecord> = Vec::new();
        let mut removed: usize = 0;
        let mut i: usize = 0;
        proof {
            reveal(Seq::filter);
            assert(start.take(0) == Seq::<UserRecord>::empty());
        }
        while i < old_records.len()
            invariant
                old_records@ == start,
                unique_names(start),
                keep_names == keep@.map_values(string_view()),
                pred == named_in(keep_names),
                i <= start.len(),
                kept@ == start.take(i as int).filter(pred),
                unique_names(kept@),
                forall|j: int| 0 <= j < kept@.len() ==> exists|k: int| 0 <= k < i && #[trigger] kept@[j] == start[k],
                removed == i - kept@.len(),
            decreases start.len() - i,
        {
            let r = &old_records[i];
            let keep_it = slice_has_name(keep, &r.username);
            proof {
                lemma_take_push(start, i as int);
                start.take(i as int).lemma_filter_push(start[i as int], pred);
                start.take(i as int).lemma_filter_len(pred);
            }
            if keep_it {
                let ghost before = kept@;
                kept.push(r.clone());
                proof {
                    assert forall|a: int, b: int| 0 <= a < b < kept@.len() implies (#[trigger] kept@[a]).username@ != (#[trigger] kept@[b]).username@ by {
                        if b == before.len() {
                            let k = choose|k: int| 0 <= k < i && #[trigger] before[a] == start[k];
                            assert(kept@[a] == before[a]);
                        }
                    }
                    assert forall|j: int| 0 <= j < kept@.len() implies exists|k: int| 0 <= k < i + 1 && #[trigger] kept@[j] == start[k] by {
                        if j < before.len() {
                            assert(kept@[j] == before[j]);
                            let k = choose|k: int| 0 <= k < i && #[trigger] before[j] == start[k];
                        } else {
                            assert(kept@[j] == start[i as int]);
                        }
                    }
                }
            } else {
                removed = removed + 1;
            }
            i = i + 1;
        }
        proof {
            assert(start.take(start.len() as int) == start);
        }
        self.records = kept;
        removed
    }

    /// Removes every user not in `usernames_to_keep`; returns how many were
    /// removed.
    pub fn remove_users_not_in_list(&mut self, usernames_to_keep: &[String]) -> (removed: usize)
        requires
            old(self).wf(),
        ensures
            final(self).wf(),
            final(self).path() == old(self).path(),
            final(self)@ == old(self)@.filter(named_in(usernames_to_keep@.map_values(string_view()))),
            removed == old(self)@.len() - final(self)@.len(),
    {
        self.retain_named(usernames_to_keep)
    }

    /// Makes the database match a fresh friend list: removes the users who
    /// are no longer friends, then adds the new ones.
    pub fn sync_with_friends(&mut self, current_friends: &[String]) -> (stats: SyncStats)
        requires
            old(self).wf(),
        ensures
            final(self).wf(),
            final(self).path() == old(self).path(),
            ({
                let names = current_friends@.map_values(string_view());
                let kept = old(self)@.filter(named_in(names));
                let added = new_names(kept.map_values(record_name()), names);
                &&& extended_with(kept, final(self)@, added)
                &&& stats.initial_count == old(self)@.len()
                &&& stats.final_count == final(self)@.len()
                &&& stats.added == added.len()
                &&& stats.removed == old(self)@.len() - kept.len()
            }),
    {
        let initial_count = self.records.len();
        let removed = self.retain_named(current_friends);
        let added = self.add_usernames(current_friends);
        SyncStats { initial_count, final_count: self.records.len(), added, removed }
    }

    /// The record of `username`, if known.
    pub fn get_user(&self, username: &str) -> (r: Option<UserRecord>)
        requires
            self.wf(),
        ensures
            r is Some == has_name(self@, username@),
            r matches Some(rec) ==> exists|i: int| 0 <= i < self@.len() && self@[i] == rec && rec.username@ == username@,
    {
        match self.position(username) {
            Some(i) => Some(self.records[i].clone()),
            None => None,
        }
    }

    /// The usernames of the records satisfying `pred`, in order.
    fn names_where(&self, now: i64, which: u8) -> (r: Vec<String>)
        ensures
            r@.map_values(string_view()) == self@.filter(
                if which == 0 { pokeable_at(now) } else { needs_friend_request() },
            ).map_values(record_name()),
    {
        let ghost pred = if which == 0 { pokeable_at(now) } else { needs_friend_request() };
        let ghost s = self@;
        let mut out: Vec<String> = Vec::new();
        let mut i: usize = 0;
        proof {
            reveal(Seq::filter);
            assert(s.take(0) == Seq::<UserRecord>::empty());
        }
        while i < self.records.len()
            invariant
                s == self@,
                s == self.records@,
                pred == (if which == 0 { pokeable_at(now) } else { needs_friend_request() }),
                i <= s.len(),
                out@.map_values(string_view()) == s.take(i as int).filter(pred).map_values(record_name()),
            decreases s.len() - i,
        {
            let r = &self.records[i];
            let take = if which == 0 {
                match r.last_poke {
                    None => true,
                    Some(last) => (now as i128) - (last as i128) >= DAY_SECONDS as i128,
                }
            } else {
                !r.friend_request_sent
            };
            proof {
                lemma_take_push(s, i as int);
                s.take(i as int).lemma_filter_push(s[i as int], pred);
            }
            if take {
                let ghost before = out@;
                out.push(r.username.clone());
                proof {
                    before.lemma_push_map_commute(string_view(), r.username);
                    s.take(i as int).filter(pred).lemma_push_map_commute(record_name(), s[i as int]);
                }
            }
            i = i + 1;
        }
        assert(s.take(s.len() as int) == s);
        out
    }

    /// The users that can be poked at `now`: never poked, or poked a day or
    /// more before.
    pub fn get_pokeable_users_at(&self, now: i64) -> (r: Vec<String>)
        ensures
            r@.map_values(string_view()) == self@.filter(pokeable_at(now)).map_values(record_name()),
    {
        self.names_where(now, 0)
    }

    /// The users that can be poked now.
    pub fn get_pokeable_users(&self) -> (r: Vec<String>)
        ensures
            exists|now: i64|
                0 <= now < CLOCK_SECONDS_BOUND && r@.map_values(string_view()) == self@.filter(
                    pokeable_at(now),
                ).map_values(record_name()),
    {
        let now = unix_seconds_now();
        self.get_pokeable_users_at(now)
    }

    /// The users no friend request has gone to yet.
    pub fn get_users_for_friend_request(&self) -> (r: Vec<String>)
        ensures
            r@.map_values(string_view()) == self@.filter(needs_friend_request()).map_values(
                record_name(),
            ),
    {
        self.names_where(0, 1)
    }

    /// Counts of the database at `now`.
    pub fn get_stats_at(&self, now: i64) -> (stats: DatabaseStats)
        ensures
            stats.total_users == self@.len(),
            stats.poked_at_least_once == self@.filter(poked()).len(),
            stats.pokeable_now == self@.filter(pokeable_at(now)).len(),
            stats.need_friend_request == self@.filter(needs_friend_request()).len(),
            stats.friend_requests_sent == self@.len() - self@.filter(needs_friend_request()).len(),
    {
        let pokeable_users = self.get_pokeable_users_at(now);
        let pokeable = pokeable_users.len();
        let need_users = self.get_users_for_friend_request();
        let need_friend_request = need_users.len();
        proof {
            self@.lemma_filter_len(needs_friend_request());
            assert(pokeable_users@.map_values(string_view()).len() == pokeable_users@.len());
            assert(need_users@.map_values(string_view()).len() == need_users@.len());
            assert(self@.filter(pokeable_at(now)).map_values(record_name()).len() == self@.filter(pokeable_at(now)).len());
            assert(self@.filter(needs_friend_request()).map_values(record_name()).len() == self@.filter(needs_friend_request()).len());
        }
        let ghost s = self@;
        let mut poked_count: usize = 0;
        let mut i: usize = 0;
        proof {
            reveal(Seq::filter);
            assert(s.take(0) == Seq::<UserRecord>::empty());
        }
        while i < self.records.len()
            invariant
                s == self@,
                s == self.records@,
                i <= s.len(),
                poked_count == s.take(i as int).filter(poked()).len(),
            decreases s.len() - i,
        {
            proof {
                lemma_take_push(s, i as int);
                s.take(i as int).lemma_filter_push(s[i as int], poked());
                s.take(i as int).lemma_filter_len(poked());
            }
            if self.records[i].last_poke.is_some() {
                poked_count = poked_count + 1;
            }
            i = i + 1;
        }
        assert(s.take(s.len() as int) == s);
        DatabaseStats {
            total_users: self.records.len(),
            poked_at_least_once: poked_count,
            pokeable_now: pokeable,
            friend_requests_sent: self.records.len() - need_friend_request,
            need_friend_request,
        }
    }

    /// Counts of the database now.
    pub fn get_stats(&self) -> (stats: DatabaseStats)
        ensures
            stats.total_users == self@.len(),
            stats.poked_at_least_once == self@.filter(poked()).len(),
            exists|now: i64|
                0 <= now < CLOCK_SECONDS_BOUND && stats.pokeable_now == self@.filter(
                    pokeable_at(now),
                ).len(),
            stats.need_friend_request == self@.filter(needs_friend_request()).len(),
            stats.friend_requests_sent == self@.len() - self@.filter(needs_friend_request()).len(),
    {
        let now = unix_seconds_now();
        self.get_stats_at(now)
    }

    /// Replaces the record at `i` with `rec`, which has the same username.
    fn replace_at(&mut self, i: usize, rec: UserRecord)
        requires
            old(self).wf(),
            i < old(self)@.len(),
            rec.username@ == old(self)@[i as int].username@,
        ensures
            final(self).wf(),
            final(self).path() == old(self).path(),
            final(self)@ == old(self)@.update(i as int, rec),
    {
        let _ = self.records.remove(i);
        self.records.insert(i, rec);
        proof {
            assert(self.records@ == old(self)@.update(i as int, rec));
            assert forall|a: int, b: int| 0 <= a < b < self.records@.len() implies (#[trigger] self.records@[a]).username@ != (#[trigger] self.records@[b]).username@ by {
                assert(old(self)@[a].username@ != old(self)@[b].username@);
            }
        }
    }

    /// Records a poke of `username` at `now`; unknown users are ignored.
    pub fn update_poke_at(&mut self, username: &str, now: i64)
        requires
            old(self).wf(),
        ensures
            final(self).wf(),
            final(self).path() == old(self).path(),
            final(self)@ == with_poke(old(self)@, username@, now),
    {
        match self.position(username) {
            Some(i) => {
                let mut rec = self.records[i].clone();
                rec.last_poke = Some(now);
                self.replace_at(i, rec);
                proof {
                    assert forall|j: int| 0 <= j < old(self)@.len() && j != i implies old(self)@[j].username@ != username@ by {
                        if j < i {
                        } else {
                            assert(old(self)@[i as int].username@ != old(self)@[j].username@);
                        }
                    }
                    assert(self@ =~= with_poke(old(self)@, username@, now));
                }
            },
            None => {
                assert(self@ =~= with_poke(old(self)@, username@, now));
            },
        }
    }

    /// Records a poke of `username` now.
    pub fn update_poke(&mut self, username: &str)
        requires
            old(self).wf(),
        ensures
            final(self).wf(),
            final(self).path() == old(self).path(),
            exists|now: i64|
                0 <= now < CLOCK_SECONDS_BOUND && final(self)@ == #[trigger] with_poke(old(self)@, username@, now),
    {
        let now = unix_seconds_now();
        self.update_poke_at(username, now);
    }

    /// Records, for a user still cooling down for `cooldown_seconds`, the poke
    /// time that leaves exactly that wait: a day before `now + cooldown_seconds`.
    pub fn update_poke_with_cooldown_at(&mut self, username: &str, cooldown_seconds: i64, now: i64)
        requires
            old(self).wf(),
            i64::MIN <= now + cooldown_seconds <= i64::MAX,
            i64::MIN <= now + cooldown_seconds - DAY_SECONDS,
        ensures
            final(self).wf(),
            final(self).path() == old(self).path(),
            final(self)@ == with_poke(old(self)@, username@, (now + cooldown_seconds - DAY_SECONDS) as i64),
    {
        let next_pokeable_time = now + cooldown_seconds;
        self.update_poke_at(username, next_pokeable_time - DAY_SECONDS);
    }

    /// As `update_poke_with_cooldown_at`, now.
    pub fn update_poke_with_cooldown(&mut self, username: &str, cooldown_seconds: i64)
        requires
            old(self).wf(),
            i64::MIN + DAY_SECONDS <= cooldown_seconds <= i64::MAX - CLOCK_SECONDS_BOUND,
        ensures
            final(self).wf(),
            final(self).path() == old(self).path(),
            exists|now: i64|
                0 <= now < CLOCK_SECONDS_BOUND && final(self)@ == #[trigger] with_poke(old(self)@, username@, (now + cooldown_seconds - DAY_SECONDS) as i64),
    {
        let now = unix_seconds_now();
        self.update_poke_with_cooldown_at(username, cooldown_seconds, now);
    }

    /// Marks that a friend request went to `username` at `now`; unknown
    /// users are ignored.
    pub fn mark_friend_request_sent_at(&mut self, username: &str, now: i64)
        requires
            old(self).wf(),
        ensures
            final(self).wf(),
            final(self).path() == old(self).path(),
            final(self)@ == with_friend_request(old(self)@, username@, now),
    {
        match self.position(username) {
            Some(i) => {
                let mut rec = self.records[i].clone();
                rec.friend_request_sent = true;
                rec.friend_request_date = Some(now);
                self.replace_at(i, rec);
                proof {
                    assert forall|j: int| 0 <= j < old(self)@.len() && j != i implies old(self)@[j].username@ != username@ by {
                        if j < i {
                        } else {
                            assert(old(self)@[i as int].username@ != old(self)@[j].username@);
                        }
                    }
                    assert(self@ =~= with_friend_request(old(self)@, username@, now));
                }
            },
            None => {
                assert(self@ =~= with_friend_request(old(self)@, username@, now));
            },
        }
    }

    /// Marks that a friend request went to `username` now.
    pub fn mark_friend_request_sent(&mut self, username: &str)
        requires
            old(self).wf(),
        ensures
            final(self).wf(),
            final(self).path() == old(self).path(),
            exists|now: i64|
                0 <= now < CLOCK_SECONDS_BOUND && final(self)@ == #[trigger] with_friend_request(old(self)@, username@, now),
    {
        let now = unix_seconds_now();
        self.mark_friend_request_sent_at(username, now);
    }

    /// Builds the database kept in `file_path` from loaded records: one
    /// record per username, the last one given for it, in the order the
    /// usernames first appear.
    pub fn from_records(file_path: &str, records: Vec<UserRecord>) -> (db: Self)
        ensures
            db.wf(),
            db.path() == file_path@,
            forall|n: Seq<char>|
                #[trigger] has_name(db@, n) == exists|k: int|
                    0 <= k < records@.len() && (#[trigger] records@[k]).username@ == n,
            forall|j: int|
                0 <= j < db@.len() ==> #[trigger] db@[j] == last_named(records@, db@[j].username@),
    {
        let mut db = Self::new(file_path);
        let ghost recs = records@;
        let mut i: usize = 0;
        while i < records.len()
            invariant
                recs == records@,
                i <= recs.len(),
                db.wf(),
                db.path() == file_path@,
                forall|n: Seq<char>|
                    #[trigger] has_name(db@, n) == exists|k: int|
                        0 <= k < i && (#[trigger] recs[k]).username@ == n,
                forall|j: int|
                    0 <= j < db@.len() ==> #[trigger] db@[j] == last_named(
                        recs.take(i as int),
                        db@[j].username@,
                    ),
            decreases recs.len() - i,
        {
            let rec = records[i].clone();
            let ghost before = db@;
            let ghost m = rec.username@;
            proof {
                assert(recs.take(i as int + 1).drop_last() == recs.take(i as int));
                assert(recs.take(i as int + 1).last() == rec);
            }
            match db.position(rec.username.as_str()) {
                Some(p) => {
                    db.replace_at(p, rec);
                    proof {
                        assert forall|j: int| 0 <= j < db@.len() implies #[trigger] db@[j] == last_named(recs.take(i as int + 1), db@[j].username@) by {
                            if j != p {
                                assert(before[j].username@ != before[p as int].username@);
                            }
                        }
                        assert forall|n: Seq<char>| #[trigger] has_name(db@, n) == exists|k: int| 0 <= k < i + 1 && (#[trigger] recs[k]).username@ == n by {
                            if has_name(db@, n) {
                                let j = choose|j: int| 0 <= j < db@.len() && (#[trigger] db@[j]).username@ == n;
                                assert(before[j].username@ == n);
                                assert(has_name(before, n));
                            }
                            if exists|k: int| 0 <= k < i + 1 && (#[trigger] recs[k]).username@ == n {
                                let k = choose|k: int| 0 <= k < i + 1 && (#[trigger] recs[k]).username@ == n;
                                if k < i {
                                    assert(has_name(before, n));
                                    let j = choose|j: int| 0 <= j < before.len() && (#[trigger] before[j]).username@ == n;
                                    assert(db@[j].username@ == n);
                                } else {
                                    assert(db@[p as int].username@ == n);
                                }
                            }
                        }
                    }
                },
                None => {
                    let ghost r2 = rec;
                    db.records.push(rec);
                    proof {
                        assert forall|a: int, b: int| 0 <= a < b < db.records@.len() implies (#[trigger] db.records@[a]).username@ != (#[trigger] db.records@[b]).username@ by {
                            if b == before.len() {
                                assert(db.records@[a] == before[a]);
                            }
                        }
                        assert forall|j: int| 0 <= j < db@.len() implies #[trigger] db@[j] == last_named(recs.take(i as int + 1), db@[j].username@) by {
                            if j < before.len() {
                                assert(db@[j] == before[j]);
                                assert(before[j].username@ != m);
                            }
                        }
                        assert forall|n: Seq<char>| #[trigger] has_name(db@, n) == exists|k: int| 0 <= k < i + 1 && (#[trigger] recs[k]).username@ == n by {
                            if has_name(db@, n) {
                                let j = choose|j: int| 0 <= j < db@.len() && (#[trigger] db@[j]).username@ == n;
                                if j < before.len() {
                                    assert(db@[j] == before[j]);
                                    assert(has_name(before, n));
                                } else {
                                    assert(recs[i as int].username@ == n);
                                }
                            }
                            if exists|k: int| 0 <= k < i + 1 && (#[trigger] recs[k]).username@ == n {
                                let k = choose|k: int| 0 <= k < i + 1 && (#[trigger] recs[k]).username@ == n;
                                if k < i {
                                    assert(has_name(before, n));
                                    let j = choose|j: int| 0 <= j < before.len() && (#[trigger] before[j]).username@ == n;
                                    assert(db@[j] == before[j]);
                                } else {
                                    assert(db@[before.len() as int].username@ == n);
                                }
                            }
                        }
                    }
                },
            }
            i = i + 1;
        }
        assert(recs.take(recs.len() as int) == recs);
        db
    }

    /// The search for the next user to poke at `now`.
    fn next_user_at(&self, now: i64, ready_counts: bool) -> (r: Option<NextPokeableUser>)
        requires
            poke_times_fit(self@, now),
        ensures
            next_user_answer(self@, now, ready_counts, r),
    {
        let ghost s = self@;
        let mut best: Option<usize> = None;
        let mut shortest: i64 = i64::MAX;
        let mut i: usize = 0;
        while i < self.records.len()
            invariant
                s == self@,
                s == self.records@,
                i <= s.len(),
                poke_times_fit(s, now),
                best is None ==> shortest == i64::MAX && forall|j: int| 0 <= j < i ==> !#[trigger] next_eligible(s[j], now, ready_counts),
                best matches Some(b) ==> {
                    &&& b < i
                    &&& next_eligible(s[b as int], now, ready_counts)
                    &&& shortest == next_key(s[b as int], now, ready_counts)
                    &&& forall|j: int| 0 <= j < i && #[trigger] next_eligible(s[j], now, ready_counts) ==> next_key(s[b as int], now, ready_counts) <= next_key(s[j], now, ready_counts)
                    &&& forall|j: int| 0 <= j < b && #[trigger] next_eligible(s[j], now, ready_counts) ==> next_key(s[j], now, ready_counts) > next_key(s[b as int], now, ready_counts)
                },
            decreases s.len() - i,
        {
            match self.records[i].last_poke {
                Some(last) => {
                    assert(s[i as int].last_poke matches Some(l) ==> {
                        &&& i64::MIN <= now - l <= i64::MAX
                        &&& i64::MIN <= wait_at(l, now) <= i64::MAX
                    });
                    let time_since_poke = now - last;
                    let wait = DAY_SECONDS - time_since_poke;
                    let key = if wait > 0 { wait } else { 0 };
                    if (ready_counts || wait > 0) && key < shortest {
                        shortest = key;
                        best = Some(i);
                    }
                },
                None => {},
            }
            i = i + 1;
        }
        match best {
            Some(b) => {
                let n = NextPokeableUser {
                    username: self.records[b].username.clone(),
                    time_until_pokeable: shortest as u64,
                };
                assert(is_next_user(s, now, ready_counts, n)) by {
                    assert(next_eligible(s[b as int], now, ready_counts));
                }
                Some(n)
            },
            None => None,
        }
    }

    /// The user who will become pokeable soonest at `now`: among the users
    /// still cooling down, the first with the shortest wait, and that wait.
    pub fn get_next_pokeable_user_at(&self, now: i64) -> (r: Option<NextPokeableUser>)
        requires
            poke_times_fit(self@, now),
        ensures
            next_user_answer(self@, now, false, r),
    {
        self.next_user_at(now, false)
    }

    /// The user who will become pokeable soonest, now.
    pub fn get_next_pokeable_user(&self) -> (r: Option<NextPokeableUser>)
        requires
            poke_times_sane(self@),
        ensures
            exists|now: i64|
                0 <= now < CLOCK_SECONDS_BOUND && #[trigger] next_user_answer(self@, now, false, r),
    {
        let now = unix_seconds_now();
        proof {
            lemma_sane_fits(self@, now);
        }
        self.get_next_pokeable_user_at(now)
    }

    /// The next user to poke at `now`, counting users who can already be
    /// poked as a wait of zero: the first poked user with the smallest such
    /// wait.
    pub fn get_next_pokeable_or_ready_user_at(&self, now: i64) -> (r: Option<NextPokeableUser>)
        requires
            poke_times_fit(self@, now),
        ensures
            next_user_answer(self@, now, true, r),
    {
        self.next_user_at(now, true)
    }

    /// As `get_next_pokeable_or_ready_user_at`, now.
    pub fn get_next_pokeable_or_ready_user(&self) -> (r: Option<NextPokeableUser>)
        requires
            poke_times_sane(self@),
        ensures
            exists|now: i64|
                0 <= now < CLOCK_SECONDS_BOUND && #[trigger] next_user_answer(self@, now, true, r),
    {
        let now = unix_seconds_now();
        proof {
            lemma_sane_fits(self@, now);
        }
        self.get_next_pokeable_or_ready_user_at(now)
    }
}

proof fn lemma_filter_all<T>(s: Seq<T>, pred: spec_fn(T) -> bool)
    requires
        forall|i: int| 0 <= i < s.len() ==> pred(#[trigger] s[i]),
    ensures
        s.filter(pred) == s,
    decreases s.len(),
{
    reveal(Seq::filter);
    if s.len() > 0 {
        lemma_filter_all(s.drop_last(), pred);
        assert(s.drop_last().push(s.last()) == s);
    }
}

proof fn lemma_new_names_none(existing: Seq<Seq<char>>, names: Seq<Seq<char>>)
    requires
        forall|i: int| 0 <= i < names.len() ==> existing.contains(#[trigger] names[i]),
    ensures
        new_names(existing, names) == Seq::<Seq<char>>::empty(),
    decreases names.len(),
{
    if names.len() > 0 {
        lemma_new_names_none(existing, names.drop_last());
        assert(existing.contains(names[names.len() - 1]));
    }
}

proof fn lemma_new_names_cover(existing: Seq<Seq<char>>, names: Seq<Seq<char>>, n: Seq<char>)
    requires
        names.contains(n),
    ensures
        existing.contains(n) || new_names(existing, names).contains(n),
    decreases names.len(),
{
    let prev = new_names(existing, names.drop_last());
    if names.last() == n {
        if !existing.contains(n) && !prev.contains(n) {
            assert(new_names(existing, names) == prev.push(n));
            assert(new_names(existing, names)[prev.len() as int] == n);
        }
    } else {
        let k = choose|k: int| 0 <= k < names.len() && names[k] == n;
        assert(names.drop_last()[k] == n);
        lemma_new_names_cover(existing, names.drop_last(), n);
        if new_names(existing, names.drop_last()).contains(n) {
            let j = choose|j: int| 0 <= j < prev.len() && prev[j] == n;
            if !(existing.contains(names.last()) || prev.contains(names.last())) {
                assert(new_names(existing, names)[j] == n);
            }
        }
    }
}

proof fn lemma_new_names_within(existing: Seq<Seq<char>>, names: Seq<Seq<char>>, n: Seq<char>)
    requires
        new_names(existing, names).contains(n),
    ensures
        names.contains(n),
    decreases names.len(),
{
    let prev = new_names(existing, names.drop_last());
    let j = choose|j: int| 0 <= j < new_names(existing, names).len() && new_names(existing, names)[j] == n;
    if j < prev.len() {
        assert(prev[j] == n);
        lemma_new_names_within(existing, names.drop_last(), n);
        let k = choose|k: int| 0 <= k < names.drop_last().len() && names.drop_last()[k] == n;
        assert(names[k] == n);
    } else {
        assert(names[names.len() - 1] == n);
    }
}

/// After a sync with a friend list, the database knows exactly the friends
/// on it; the records it kept are unchanged and come first.
pub proof fn law_sync_knows_exactly_the_friends(
    before: Seq<UserRecord>,
    after: Seq<UserRecord>,
    friends: Seq<Seq<char>>,
)
    requires
        ({
            let kept = before.filter(named_in(friends));
            extended_with(kept, after, new_names(kept.map_values(record_name()), friends))
        }),
    ensures
        forall|n: Seq<char>| has_name(after, n) <==> friends.contains(n),
        after.take(before.filter(named_in(friends)).len() as int) == before.filter(named_in(friends)),
{
    let kept = before.filter(named_in(friends));
    let added = new_names(kept.map_values(record_name()), friends);
    assert forall|n: Seq<char>| has_name(after, n) <==> friends.contains(n) by {
        if has_name(after, n) {
            let i = choose|i: int| 0 <= i < after.len() && (#[trigger] after[i]).username@ == n;
            if i < kept.len() {
                assert(after.take(kept.len() as int)[i] == kept[i]);
                before.lemma_filter_pred(named_in(friends), i);
            } else {
                assert(is_fresh_record(after[kept.len() + (i - kept.len())], added[i - kept.len()]));
                assert(added.contains(n));
                lemma_new_names_within(kept.map_values(record_name()), friends, n);
            }
        }
        if friends.contains(n) {
            lemma_new_names_cover(kept.map_values(record_name()), friends, n);
            if kept.map_values(record_name()).contains(n) {
                let i = choose|i: int| 0 <= i < kept.len() && kept.map_values(record_name())[i] == n;
                assert(after.take(kept.len() as int)[i] == kept[i]);
                assert(after[i].username@ == n);
            } else {
                let j = choose|j: int| 0 <= j < added.len() && added[j] == n;
                assert(is_fresh_record(after[kept.len() + j], added[j]));
                assert(after[kept.len() + j].username@ == n);
            }
        }
    }
}

/// Syncing twice with the same friend list changes nothing the second time,
/// and the second sync keeps every record and adds none (its counts of
/// removed and added users are zero).
pub proof fn law_sync_is_idempotent(
    before: Seq<UserRecord>,
    once: Seq<UserRecord>,
    twice: Seq<UserRecord>,
    friends: Seq<Seq<char>>,
)
    requires
        ({
            let kept = before.filter(named_in(friends));
            extended_with(kept, once, new_names(kept.map_values(record_name()), friends))
        }),
        ({
            let kept = once.filter(named_in(friends));
            extended_with(kept, twice, new_names(kept.map_values(record_name()), friends))
        }),
    ensures
        twice == once,
        once.filter(named_in(friends)) == once,
        new_names(once.filter(named_in(friends)).map_values(record_name()), friends).len() == 0,
{
    law_sync_knows_exactly_the_friends(before, once, friends);
    assert forall|i: int| 0 <= i < once.len() implies named_in(friends)(#[trigger] once[i]) by {
        assert(has_name(once, once[i].username@));
    }
    lemma_filter_all(once, named_in(friends));
    assert forall|i: int| 0 <= i < friends.len() implies once.map_values(record_name()).contains(#[trigger] friends[i]) by {
        assert(friends.contains(friends[i]));
        assert(has_name(once, friends[i]));
        let k = choose|k: int| 0 <= k < once.len() && (#[trigger] once[k]).username@ == friends[i];
        assert(once.map_values(record_name())[k] == friends[i]);
    }
    lemma_new_names_none(once.map_values(record_name()), friends);
    assert(twice.take(once.len() as int) == once);
    assert(twice == once);
}

/// The usernames of a record sequence, as a set.
pub open spec fn name_set(s: Seq<UserRecord>) -> Set<Seq<char>> {
    s.map_values(record_name()).to_set()
}

proof fn lemma_unique_name_count(s: Seq<UserRecord>)
    requires
        unique_names(s),
    ensures
        name_set(s).len() == s.len(),
        name_set(s).finite(),
{
    let m = s.map_values(record_name());
    assert forall|i: int, j: int| 0 <= i < m.len() && 0 <= j < m.len() && i != j implies m[i] != m[j] by {
        if i < j {
            assert(s[i].username@ != s[j].username@);
        } else {
            assert(s[j].username@ != s[i].username@);
        }
    }
    assert(m.no_duplicates());
    m.unique_seq_to_set();
    vstd::seq_lib::seq_to_set_is_finite(m);
}

/// The counts a sync reports are those of the name sets: the database ends
/// with as many users as there are distinct friends; it removes the users
/// that are not friends and adds the friends it did not know.
pub proof fn law_sync_counts(before: Seq<UserRecord>, after: Seq<UserRecord>, friends: Seq<Seq<char>>)
    requires
        unique_names(before),
        unique_names(after),
        ({
            let kept = before.filter(named_in(friends));
            extended_with(kept, after, new_names(kept.map_values(record_name()), friends))
        }),
    ensures
        ({
            let kept = before.filter(named_in(friends));
            let added = new_names(kept.map_values(record_name()), friends);
            &&& after.len() == friends.to_set().len()
            &&& before.len() - kept.len() == name_set(before).difference(friends.to_set()).len()
            &&& added.len() == friends.to_set().difference(name_set(before)).len()
        }),
{
    let kept = before.filter(named_in(friends));
    let added = new_names(kept.map_values(record_name()), friends);
    let f = friends.to_set();
    let b = name_set(before);
    law_sync_knows_exactly_the_friends(before, after, friends);
    // The records after the sync carry exactly the friends' names.
    assert(name_set(after) =~= f) by {
        assert forall|n: Seq<char>| name_set(after).contains(n) <==> f.contains(n) by {
            if name_set(after).contains(n) {
                let i = choose|i: int| 0 <= i < after.len() && after.map_values(record_name())[i] == n;
                assert(after[i].username@ == n);
                assert(has_name(after, n));
            }
            if f.contains(n) {
                assert(has_name(after, n));
                let i = choose|i: int| 0 <= i < after.len() && (#[trigger] after[i]).username@ == n;
                assert(after.map_values(record_name())[i] == n);
            }
        }
    }
    lemma_unique_name_count(after);
    lemma_unique_name_count(before);
    friends.lemma_cardinality_of_set();
    // The kept records are the prefix of `after`, so their names are distinct.
    assert(unique_names(kept)) by {
        assert forall|i: int, j: int| 0 <= i < j < kept.len() implies (#[trigger] kept[i]).username@ != (#[trigger] kept[j]).username@ by {
            assert(after.take(kept.len() as int)[i] == kept[i]);
            assert(after.take(kept.len() as int)[j] == kept[j]);
            assert(after[i].username@ != after[j].username@);
        }
    }
    lemma_unique_name_count(kept);
    // Their names are the known users who are friends.
    assert(name_set(kept) =~= b.intersect(f)) by {
        broadcast use vstd::seq_lib::group_filter_ensures;

        assert forall|n: Seq<char>| name_set(kept).contains(n) <==> b.intersect(f).contains(n) by {
            if name_set(kept).contains(n) {
                let i = choose|i: int| 0 <= i < kept.len() && kept.map_values(record_name())[i] == n;
                assert(kept[i].username@ == n);
                assert(named_in(friends)(kept[i]));
                assert(kept.contains(kept[i]));
                before.lemma_filter_contains_rev(named_in(friends), kept[i]);
                let j = choose|j: int| 0 <= j < before.len() && before[j] == kept[i];
                assert(before.map_values(record_name())[j] == n);
            }
            if b.intersect(f).contains(n) {
                let j = choose|j: int| 0 <= j < before.len() && before.map_values(record_name())[j] == n;
                assert(before[j].username@ == n);
                before.lemma_filter_contains(named_in(friends), j);
                let i = choose|i: int| 0 <= i < kept.len() && kept[i] == before[j];
                assert(kept.map_values(record_name())[i] == n);
            }
        }
    }
    assert(f.intersect(b) =~= b.intersect(f));
    vstd::set_lib::lemma_set_difference_len(b, f);
    vstd::set_lib::lemma_set_difference_len(f, b);
}

/// A user just poked at `now` is not offered for poking until a day has
/// passed, and is offered from then on.
pub proof fn law_poke_rests_a_day(records: Seq<UserRecord>, name: Seq<char>, now: i64, t: i64)
    ensures
        forall|i: int| 0 <= i < records.len() && (#[trigger] records[i]).username@ == name ==> {
            &&& (now <= t < now + DAY_SECONDS ==> !pokeable_at(t)(with_poke(records, name, now)[i]))
            &&& (t >= now + DAY_SECONDS ==> pokeable_at(t)(with_poke(records, name, now)[i]))
        },
{
}

/// A user whose poke was refused with a cooldown of `c` seconds at `now` is
/// offered for poking again exactly when the cooldown ends.
pub proof fn law_cooldown_ends_on_time(records: Seq<UserRecord>, name: Seq<char>, now: i64, c: i64, t: i64)
    requires
        i64::MIN <= now + c - DAY_SECONDS,
        now + c <= i64::MAX,
    ensures
        forall|i: int| 0 <= i < records.len() && (#[trigger] records[i]).username@ == name ==> (
            pokeable_at(t)(with_poke(records, name, (now + c - DAY_SECONDS) as i64)[i]) <==> t >= now + c),
{
}

/// Once a friend request is marked, the user is no longer among those
/// still to be asked.
pub proof fn law_marked_user_not_asked_again(records: Seq<UserRecord>, name: Seq<char>, t: i64)
    ensures
        !with_friend_request(records, name, t).filter(needs_friend_request()).map_values(record_name()).contains(name),
{
    let after = with_friend_request(records, name, t);
    let f = after.filter(needs_friend_request());
    if f.map_values(record_name()).contains(name) {
        let j = choose|j: int| 0 <= j < f.len() && f.map_values(record_name())[j] == name;
        assert(f[j].username@ == name);
        after.lemma_filter_contains_rev(needs_friend_request(), f[j]);
        assert(f.contains(f[j]));
        let k = choose|k: int| 0 <= k < after.len() && after[k] == f[j];
        assert(!needs_friend_request()(f[j])) by {
            assert(after[k].username@ == name);
        }
        after.lemma_filter_pred(needs_friend_request(), j);
    }
}

proof fn lemma_last_named_is_there(s: Seq<UserRecord>, n: Seq<char>)
    requires
        exists|k: int| 0 <= k < s.len() && (#[trigger] s[k]).username@ == n,
    ensures
        exists|k: int| 0 <= k < s.len() && s[k] == last_named(s, n),
        last_named(s, n).username@ == n,
    decreases s.len(),
{
    if s.last().username@ != n {
        let k = choose|k: int| 0 <= k < s.len() && (#[trigger] s[k]).username@ == n;
        assert(k < s.len() - 1);
        assert(s.drop_last()[k].username@ == n);
        lemma_last_named_is_there(s.drop_last(), n);
        let j = choose|j: int| 0 <= j < s.drop_last().len() && s.drop_last()[j] == last_named(s.drop_last(), n);
        assert(s[j] == last_named(s, n));
    } else {
        assert(s[s.len() - 1] == last_named(s, n));
    }
}

/// Saving the records, keyed by username, and loading them back in whatever
/// order the file gives them yields a database holding exactly the saved
/// records.
pub proof fn law_reload_gives_back_the_records(
    saved: Seq<UserRecord>,
    given: Seq<UserRecord>,
    loaded: Seq<UserRecord>,
)
    requires
        unique_names(saved),
        forall|k: int| 0 <= k < given.len() ==> saved.contains(#[trigger] given[k]),
        forall|i: int| 0 <= i < saved.len() ==> given.contains(#[trigger] saved[i]),
        forall|n: Seq<char>|
            #[trigger] has_name(loaded, n) == exists|k: int| 0 <= k < given.len() && (#[trigger] given[k]).username@ == n,
        forall|j: int| 0 <= j < loaded.len() ==> #[trigger] loaded[j] == last_named(given, loaded[j].username@),
    ensures
        forall|n: Seq<char>| has_name(loaded, n) <==> has_name(saved, n),
        forall|j: int| 0 <= j < loaded.len() ==> saved.contains(#[trigger] loaded[j]),
{
    assert forall|n: Seq<char>| has_name(loaded, n) <==> has_name(saved, n) by {
        if has_name(loaded, n) {
            let k = choose|k: int| 0 <= k < given.len() && (#[trigger] given[k]).username@ == n;
            assert(saved.contains(given[k]));
            let i = choose|i: int| 0 <= i < saved.len() && saved[i] == given[k];
            assert(saved[i].username@ == n);
        }
        if has_name(saved, n) {
            let i = choose|i: int| 0 <= i < saved.len() && (#[trigger] saved[i]).username@ == n;
            assert(given.contains(saved[i]));
            let k = choose|k: int| 0 <= k < given.len() && given[k] == saved[i];
            assert(given[k].username@ == n);
        }
    }
    assert forall|j: int| 0 <= j < loaded.len() implies saved.contains(#[trigger] loaded[j]) by {
        let n = loaded[j].username@;
        assert(has_name(loaded, n));
        lemma_last_named_is_there(given, n);
        let k = choose|k: int| 0 <= k < given.len() && given[k] == last_named(given, n);
        assert(saved.contains(given[k]));
    }
}

} // verus!
