//! Reading the answers typed at the bot's menu.

use vstd::prelude::*;
use crate::text::{chars_of, parse_u64_chars, parse_u64_spec, string_from_chars, trim_chars, trim_spec};

verus! {

/// The option chosen at the menu: the answer, trimmed, as a number; the
/// first option when it is not one.
pub open spec fn menu_choice_spec(input: Seq<char>) -> u32 {
    match parse_u64_spec(trim_spec(input)) {
        Some(v) => if v <= u32::MAX { v as u32 } else { 1 },
        None => 1,
    }
}

/// Reads the option chosen at the menu.
pub fn menu_choice(input: &str) -> (r: u32)
    ensures
        r == menu_choice_spec(input@),
{
    let cs = chars_of(input);
    let t = trim_chars(&cs);
    assert(t@.subrange(0, t@.len() as int) == t@);
    match parse_u64_chars(&t, 0, t.len()) {
        Some(v) => if v <= 4294967295u64 { v as u32 } else { 1 },
        None => 1,
    }
}

/// The most users a run works on.
pub const MAX_RUN_SIZE: usize = 50;

/// How many users a run works on: the answer, trimmed, as a number (ten
/// when it is not one), at most fifty.
pub open spec fn count_answer_spec(input: Seq<char>) -> usize {
    let n: int = match parse_u64_spec(trim_spec(input)) {
        Some(v) => if v <= usize::MAX { v as int } else { 10 },
        None => 10,
    };
    if n <= MAX_RUN_SIZE { n as usize } else { MAX_RUN_SIZE }
}

/// Reads how many users a run works on.
pub fn count_answer(input: &str) -> (r: usize)
    ensures
        r == count_answer_spec(input@),
{
    let cs = chars_of(input);
    let t = trim_chars(&cs);
    assert(t@.subrange(0, t@.len() as int) == t@);
    let n: usize = match parse_u64_chars(&t, 0, t.len()) {
        Some(v) => if v as u128 <= usize::MAX as u128 { v as usize } else { 10 },
        None => 10,
    };
    if n <= MAX_RUN_SIZE { n } else { MAX_RUN_SIZE }
}

/// The pieces of `s` between the separators `sep`, as `str::split` gives
/// them (one more piece than there are separators).
pub open spec fn pieces(s: Seq<char>, sep: char) -> Seq<Seq<char>>
    decreases s.len(),
{
    if s.len() == 0 {
        seq![Seq::<char>::empty()]
    } else {
        let p = pieces(s.drop_last(), sep);
        if s.last() == sep {
            p.push(Seq::empty())
        } else {
            p.update(p.len() - 1, p.last().push(s.last()))
        }
    }
}

/// The trimmed pieces that are not empty.
pub open spec fn kept_pieces(ps: Seq<Seq<char>>) -> Seq<Seq<char>>
    decreases ps.len(),
{
    if ps.len() == 0 {
        Seq::empty()
    } else if trim_spec(ps.last()).len() == 0 {
        kept_pieces(ps.drop_last())
    } else {
        kept_pieces(ps.drop_last()).push(trim_spec(ps.last()))
    }
}

/// The usernames to leave out of a run: the answer, trimmed, split at
/// commas, each name trimmed, empty names dropped.
pub open spec fn exclude_list_spec(input: Seq<char>) -> Seq<Seq<char>> {
    kept_pieces(pieces(trim_spec(input), ','))
}

/// Reads the usernames to leave out of a run.
pub fn exclude_list(input: &str) -> (r: Vec<String>)
    ensures
        r@.map_values(|s: String| s@) == exclude_list_spec(input@),
{
    let cs = chars_of(input);
    let t = trim_chars(&cs);
    let mut done: Vec<Vec<char>> = Vec::new();
    let mut current: Vec<char> = Vec::new();
    let mut i: usize = 0;
    while i < t.len()
        invariant
            i <= t.len(),
            done@.map_values(|v: Vec<char>| v@).push(current@) == pieces(t@.take(i as int), ','),
        decreases t.len() - i,
    {
        let ghost before = done@.map_values(|v: Vec<char>| v@).push(current@);
        proof {
            assert(t@.take(i + 1).drop_last() == t@.take(i as int));
            assert(t@.take(i + 1).last() == t@[i as int]);
        }
        if t[i] == ',' {
            let finished = current;
            current = Vec::new();
            let ghost d0 = done@;
            done.push(finished);
            assert(done@.map_values(|v: Vec<char>| v@) == d0.map_values(|v: Vec<char>| v@).push(finished@));
            assert(done@.map_values(|v: Vec<char>| v@).push(current@) == before.push(Seq::<char>::empty()));
        } else {
            let ghost c0 = current@;
            current.push(t[i]);
            assert(done@.map_values(|v: Vec<char>| v@).push(current@) == before.update(
                before.len() - 1,
                before.last().push(t@[i as int]),
            ));
        }
        i = i + 1;
    }
    assert(t@.take(t.len() as int) == t@);
    let ghost d0 = done@;
    let ghost c0 = current@;
    done.push(current);
    let ghost all = done@.map_values(|v: Vec<char>| v@);
    assert(all == d0.map_values(|v: Vec<char>| v@).push(c0));
    assert(all == pieces(t@, ','));
    let mut out: Vec<String> = Vec::new();
    let mut k: usize = 0;
    while k < done.len()
        invariant
            k <= done.len(),
            all == done@.map_values(|v: Vec<char>| v@),
            out@.map_values(|s: String| s@) == kept_pieces(all.take(k as int)),
        decreases done.len() - k,
    {
        proof {
            assert(all.take(k + 1).drop_last() == all.take(k as int));
            assert(all.take(k + 1).last() == done@[k as int]@);
        }
        let name = trim_chars(&done[k]);
        if name.len() > 0 {
            let ghost o0 = out@;
            out.push(string_from_chars(&name));
            assert(out@.map_values(|s: String| s@) == o0.map_values(|s: String| s@).push(name@));
        }
        k = k + 1;
    }
    assert(all.take(done.len() as int) == all);
    out
}

} // verus!
