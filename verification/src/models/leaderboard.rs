//! Leaderboard entries and their ordering.

use vstd::prelude::*;
use crate::sorting::{desc_sorted, same_key_classes, stable_sort_desc};

verus! {

/// Leaderboard entry for a user
pub struct LeaderboardEntry {
    pub username: String,
    pub display_name: String,
    pub beetles: u32,
    pub pokes: u32,
    pub social_credit: i64,
    pub pfp_url: Option<String>,
}

/// Leaderboard statistics
pub struct LeaderboardStats {
    pub entries: Vec<LeaderboardEntry>,
    pub total_users: usize,
}

/// Sort criteria for leaderboard
#[derive(Debug, Clone, Copy)]
pub enum SortBy {
    Beetles,
    Pokes,
    SocialCredit,
}

/// The value an entry is ranked by under a criterion.
pub open spec fn entry_key(by: SortBy) -> spec_fn(LeaderboardEntry) -> int {
    |e: LeaderboardEntry|
        match by {
            SortBy::Beetles => e.beetles as int,
            SortBy::Pokes => e.pokes as int,
            SortBy::SocialCredit => e.social_credit as int,
        }
}

fn beetles_key(e: &LeaderboardEntry) -> (r: i128)
    ensures
        r == e.beetles as int,
{
    e.beetles as i128
}

fn pokes_key(e: &LeaderboardEntry) -> (r: i128)
    ensures
        r == e.pokes as int,
{
    e.pokes as i128
}

fn social_credit_key(e: &LeaderboardEntry) -> (r: i128)
    ensures
        r == e.social_credit as int,
{
    e.social_credit as i128
}

impl LeaderboardStats {
    pub fn new() -> (s: Self)
        ensures
            s.entries@ == Seq::<LeaderboardEntry>::empty(),
            s.total_users == 0,
    {
        Self { entries: Vec::new(), total_users: 0 }
    }

    /// Appends an entry; the user count follows the number of entries.
    pub fn add_entry(&mut self, entry: LeaderboardEntry)
        requires
            old(self).entries@.len() < usize::MAX,
        ensures
            final(self).entries@ == old(self).entries@.push(entry),
            final(self).total_users == final(self).entries@.len(),
    {
        self.entries.push(entry);
        self.total_users = self.entries.len();
    }

    /// Orders the entries from the highest to the lowest value of the
    /// criterion; entries with equal values keep their relative order.
    pub fn sort_by(&mut self, sort_by: SortBy)
        ensures
            final(self).total_users == old(self).total_users,
            final(self).entries@.len() == old(self).entries@.len(),
            final(self).entries@.to_multiset() == old(self).entries@.to_multiset(),
            desc_sorted(final(self).entries@, entry_key(sort_by)),
            same_key_classes(old(self).entries@, final(self).entries@, entry_key(sort_by)),
            sort_by is Beetles ==> forall|i: int, j: int| 0 <= i < j < final(self).entries@.len()
                ==> final(self).entries@[i].beetles >= final(self).entries@[j].beetles,
            sort_by is Pokes ==> forall|i: int, j: int| 0 <= i < j < final(self).entries@.len()
                ==> final(self).entries@[i].pokes >= final(self).entries@[j].pokes,
            sort_by is SocialCredit ==> forall|i: int, j: int| 0 <= i < j < final(self).entries@.len()
                ==> final(self).entries@[i].social_credit >= final(self).entries@[j].social_credit,
    {
        match sort_by {
            SortBy::Beetles => {
                stable_sort_desc(
                    &mut self.entries,
                    Ghost(entry_key(sort_by)),
                    beetles_key,
                );
            },
            SortBy::Pokes => {
                stable_sort_desc(
                    &mut self.entries,
                    Ghost(entry_key(sort_by)),
                    pokes_key,
                );
            },
            SortBy::SocialCredit => {
                stable_sort_desc(
                    &mut self.entries,
                    Ghost(entry_key(sort_by)),
                    social_credit_key,
                );
            },
        }
        proof {
            law_sorted_entries_follow_the_criterion(self.entries@, sort_by);
        }
    }
}

/// Entries in the order the leaderboard sorts them under a criterion are in
/// non-increasing order of that criterion's field: beetles, pokes or social
/// credit.
pub proof fn law_sorted_entries_follow_the_criterion(s: Seq<LeaderboardEntry>, by: SortBy)
    requires
        desc_sorted(s, entry_key(by)),
    ensures
        by is Beetles ==> forall|i: int, j: int| 0 <= i < j < s.len() ==> s[i].beetles >= s[j].beetles,
        by is Pokes ==> forall|i: int, j: int| 0 <= i < j < s.len() ==> s[i].pokes >= s[j].pokes,
        by is SocialCredit ==> forall|i: int, j: int|
            0 <= i < j < s.len() ==> s[i].social_credit >= s[j].social_credit,
{
    assert forall|i: int, j: int| 0 <= i < j < s.len() implies entry_key(by)(s[i]) >= entry_key(by)(s[j]) by {
        assert(entry_key(by)(s[i]) >= entry_key(by)(s[j]));
    }
}

impl Default for LeaderboardStats {
    fn default() -> (s: Self)
        ensures
            s.entries@ == Seq::<LeaderboardEntry>::empty(),
            s.total_users == 0,
    {
        Self::new()
    }
}

} // verus!
