//! Formatting of durations and elapsed times, and extraction of cooldowns
//! from the server's error messages.

use vstd::prelude::*;
use crate::clock::{unix_seconds_now, CLOCK_SECONDS_BOUND};
use crate::text::{
    chars_of, dec, find, find_chars, find_from, parse_i64_chars, parse_i64_spec,
    parse_u64_chars, parse_u64_spec, push_char, push_u64,
};

verus! {

/// `format_duration`'s text: `"{h}h {m}m {s}s"` when there are whole hours,
/// `"{m}m {s}s"` when there are whole minutes, `"{s}s"` otherwise.
pub open spec fn duration_text(seconds: nat) -> Seq<char> {
    let hours = seconds / 3600;
    let minutes = (seconds % 3600) / 60;
    let secs = seconds % 60;
    if hours > 0 {
        dec(hours) + seq!['h', ' '] + dec(minutes) + seq!['m', ' '] + dec(secs) + seq!['s']
    } else if minutes > 0 {
        dec(minutes) + seq!['m', ' '] + dec(secs) + seq!['s']
    } else {
        dec(secs) + seq!['s']
    }
}

/// A number of seconds split into whole hours, the minutes past the hour,
/// and the seconds past the minute.
pub fn hours_minutes_seconds(seconds: u64) -> (r: (u64, u64, u64))
    ensures
        r.0 == seconds / 3600,
        r.1 == (seconds % 3600) / 60,
        r.2 == seconds % 60,
        r.0 * 3600 + r.1 * 60 + r.2 == seconds,
{
    let r = (seconds / 3600, (seconds % 3600) / 60, seconds % 60);
    assert(r.0 * 3600 + r.1 * 60 + r.2 == seconds) by (nonlinear_arith)
        requires
            r.0 == seconds / 3600,
            r.1 == (seconds % 3600) / 60,
            r.2 == seconds % 60,
    ;
    r
}

/// Formats a number of seconds as hours, minutes and seconds.
pub fn format_duration(seconds: u64) -> (s: String)
    ensures
        s@ == duration_text(seconds as nat),
{
    let hours = seconds / 3600;
    let minutes = (seconds % 3600) / 60;
    let secs = seconds % 60;
    let mut s = String::new();
    if hours > 0 {
        push_u64(&mut s, hours);
        push_char(&mut s, 'h');
        push_char(&mut s, ' ');
        push_u64(&mut s, minutes);
        push_char(&mut s, 'm');
        push_char(&mut s, ' ');
        push_u64(&mut s, secs);
        push_char(&mut s, 's');
    } else if minutes > 0 {
        push_u64(&mut s, minutes);
        push_char(&mut s, 'm');
        push_char(&mut s, ' ');
        push_u64(&mut s, secs);
        push_char(&mut s, 's');
    } else {
        push_u64(&mut s, secs);
        push_char(&mut s, 's');
    }
    s
}

/// `format_time_ago`'s text at `now` for a timestamp in seconds: `Never`
/// for zero or a time after `now`, otherwise the elapsed time in the largest
/// whole unit among seconds, minutes, hours and days, followed by ` ago`.
pub open spec fn time_ago_text(timestamp: nat, now: nat) -> Seq<char> {
    if timestamp == 0 || timestamp > now {
        seq!['N', 'e', 'v', 'e', 'r']
    } else {
        let elapsed = (now - timestamp) as nat;
        if elapsed < 60 {
            dec(elapsed) + seq!['s', ' ', 'a', 'g', 'o']
        } else if elapsed < 3600 {
            dec(elapsed / 60) + seq!['m', ' ', 'a', 'g', 'o']
        } else if elapsed < 86400 {
            dec(elapsed / 3600) + seq!['h', ' ', 'a', 'g', 'o']
        } else {
            dec(elapsed / 86400) + seq!['d', ' ', 'a', 'g', 'o']
        }
    }
}

fn push_ago(s: &mut String)
    ensures
        final(s)@ == old(s)@ + seq![' ', 'a', 'g', 'o'],
{
    push_char(s, ' ');
    push_char(s, 'a');
    push_char(s, 'g');
    push_char(s, 'o');
    assert(s@ =~= old(s)@ + seq![' ', 'a', 'g', 'o']);
}

/// Format time elapsed since `timestamp_secs`, seen at `now`.
pub fn format_time_ago_at(timestamp_secs: u64, now: u64) -> (s: String)
    ensures
        s@ == time_ago_text(timestamp_secs as nat, now as nat),
{
    let mut s = String::new();
    if timestamp_secs == 0 || timestamp_secs > now {
        push_char(&mut s, 'N');
        push_char(&mut s, 'e');
        push_char(&mut s, 'v');
        push_char(&mut s, 'e');
        push_char(&mut s, 'r');
        assert(s@ =~= seq!['N', 'e', 'v', 'e', 'r']);
        return s;
    }
    let elapsed = now - timestamp_secs;
    if elapsed < 60 {
        push_u64(&mut s, elapsed);
        push_char(&mut s, 's');
    } else if elapsed < 3600 {
        push_u64(&mut s, elapsed / 60);
        push_char(&mut s, 'm');
    } else if elapsed < 86400 {
        push_u64(&mut s, elapsed / 3600);
        push_char(&mut s, 'h');
    } else {
        push_u64(&mut s, elapsed / 86400);
        push_char(&mut s, 'd');
    }
    push_ago(&mut s);
    assert(s@ =~= time_ago_text(timestamp_secs as nat, now as nat));
    s
}

/// Format time elapsed since `timestamp_secs`, now.
pub fn format_time_ago(timestamp_secs: u64) -> (s: String)
    ensures
        exists|now: u64|
            now < CLOCK_SECONDS_BOUND && #[trigger] time_ago_text(timestamp_secs as nat, now as nat) == s@,
        timestamp_secs == 0 ==> s@ == seq!['N', 'e', 'v', 'e', 'r'],
{
    let now = unix_seconds_now() as u64;
    let s = format_time_ago_at(timestamp_secs, now);
    assert(now < CLOCK_SECONDS_BOUND && time_ago_text(timestamp_secs as nat, now as nat) == s@);
    s
}

/// The cooldown in a message such as `Beetle catch on cooldown for 1929s`:
/// the text between the first `for ` and the first `s` after it, read as an
/// unsigned number.
pub open spec fn cooldown_from_error_spec(e: Seq<char>) -> Option<u64> {
    match find(e, seq!['f', 'o', 'r', ' ']) {
        None => None,
        Some(start) => match find_from(e, seq!['s'], start) {
            None => None,
            Some(end) => parse_u64_spec(e.subrange(start + 4, end)),
        },
    }
}

/// Extract cooldown seconds from error message
pub fn extract_cooldown_from_error(error: &str) -> (r: Option<u64>)
    ensures
        r == cooldown_from_error_spec(error@),
{
    let e = chars_of(error);
    let for_pat = vec!['f', 'o', 'r', ' '];
    let s_pat = vec!['s'];
    assert(for_pat@ == seq!['f', 'o', 'r', ' ']);
    assert(s_pat@ == seq!['s']);
    match find_chars(&e, &for_pat, 0) {
        Some(start) => match find_chars(&e, &s_pat, start) {
            Some(end) => {
                // "for " holds no `s`, so the `s` comes after it
                assert(end >= start + 4) by {
                    if end < start + 4 {
                        assert(e@.subrange(start as int, start + 4)[end - start] == e@[end as int]);
                        assert(e@.subrange(end as int, end + 1)[0] == e@[end as int]);
                    }
                }
                parse_u64_chars(&e, start + 4, end)
            },
            None => None,
        },
        None => None,
    }
}

/// The seconds in a message such as `Still on cooldown for 1 hours and 5
/// minutes (3900 seconds)`: the text between the first `(` and the first
/// ` seconds)`, read as a signed number.
pub open spec fn cooldown_seconds_spec(e: Seq<char>) -> Option<i64> {
    match (find(e, seq!['(']), find(e, " seconds)"@)) {
        (Some(start), Some(end)) => parse_i64_spec(e.subrange(start + 1, end)),
        _ => None,
    }
}

/// The two markers, when both are present, come in order, so that the text
/// between them can be cut out.
pub open spec fn cooldown_seconds_markers_ordered(e: Seq<char>) -> bool {
    match (find(e, seq!['(']), find(e, " seconds)"@)) {
        (Some(start), Some(end)) => start + 1 <= end,
        _ => true,
    }
}

/// Extract cooldown seconds from detailed error message
pub fn extract_cooldown_seconds(err_msg: &str) -> (r: Option<i64>)
    requires
        cooldown_seconds_markers_ordered(err_msg@),
    ensures
        r == cooldown_seconds_spec(err_msg@),
{
    let e = chars_of(err_msg);
    let open_pat = vec!['('];
    let end_pat = chars_of(" seconds)");
    assert(open_pat@ == seq!['(']);
    match find_chars(&e, &open_pat, 0) {
        Some(start) => match find_chars(&e, &end_pat, 0) {
            Some(end) => parse_i64_chars(&e, start + 1, end),
            None => None,
        },
        None => None,
    }
}

/// The lower-case hexadecimal digit for `d` (meaningful for `0 <= d < 16`).
pub open spec fn hex_digit(d: int) -> char {
    if d < 10 { crate::text::digit_char(d) } else if d == 10 { 'a' } else if d == 11 { 'b' } else if d == 12 {
        'c'
    } else if d == 13 { 'd' } else if d == 14 { 'e' } else { 'f' }
}

/// `format!("{:x}", n)`: `n` in lower-case hexadecimal, without leading zeros.
pub open spec fn hex(n: nat) -> Seq<char>
    decreases n,
{
    if n < 16 { seq![hex_digit(n as int)] } else { hex(n / 16).push(hex_digit((n % 16) as int)) }
}

fn hex_digit_of(d: u64) -> (c: char)
    requires
        d < 16,
    ensures
        c == hex_digit(d as int),
{
    if d < 10 {
        crate::text::digit_char_of(d)
    } else if d == 10 { 'a' } else if d == 11 { 'b' } else if d == 12 { 'c' } else if d == 13 { 'd' } else if d
        == 14 { 'e' } else { 'f' }
}

/// The hexadecimal digits of `n`.
pub fn hex_chars(n: u64) -> (v: Vec<char>)
    ensures
        v@ == hex(n as nat),
    decreases n,
{
    if n < 16 {
        let mut v = Vec::new();
        v.push(hex_digit_of(n));
        v
    } else {
        let mut v = hex_chars(n / 16);
        v.push(hex_digit_of(n % 16));
        v
    }
}

/// Whether `c` is an ASCII letter or digit.
pub open spec fn is_alphanumeric(c: char) -> bool {
    ('A' <= c && c <= 'Z') || ('a' <= c && c <= 'z') || ('0' <= c && c <= '9')
}

/// `len` characters drawn by `rand` from the ASCII letters and digits
/// (`Alphanumeric.sample_string` on the thread's generator). They are random:
/// only their number and their alphabet are stated. `thread_rng` stops the
/// program when the operating system's random source fails, which no
/// argument can rule out.
#[verifier::external_body]
fn random_alphanumeric(len: usize) -> (r: String)
    ensures
        r@.len() == len,
        forall|i: int| 0 <= i < r@.len() ==> is_alphanumeric(#[trigger] r@[i]),
{
    rand::distributions::DistString::sample_string(&rand::distributions::Alphanumeric, &mut rand::thread_rng(), len)
}

/// The cache-busting stamp of a Socket.IO request: the time in milliseconds
/// in hexadecimal, then the random characters, cut to eleven characters.
pub open spec fn socket_stamp(millis: nat, random: Seq<char>) -> Seq<char> {
    let all = hex(millis) + random;
    if all.len() <= 11 { all } else { all.take(11) }
}

/// Builds the stamp of a Socket.IO request from the time and the random
/// characters.
pub fn socket_stamp_from(millis: u64, random: &str) -> (r: String)
    ensures
        r@ == socket_stamp(millis as nat, random@),
{
    let mut all = hex_chars(millis);
    let mut rest = chars_of(random);
    all.append(&mut rest);
    let cut = if all.len() <= 11 { all.len() } else { 11 };
    let stamp = crate::text::sub_chars(&all, 0, cut);
    assert(cut == all@.len() ==> all@.subrange(0, cut as int) == all@);
    crate::text::string_from_chars(&stamp)
}

/// A fresh stamp for a Socket.IO request: the current time in milliseconds
/// and eight random letters or digits.
pub fn generate_socket_timestamp() -> (r: String)
    ensures
        exists|millis: nat, random: Seq<char>|
            #![trigger socket_stamp(millis, random)]
            random.len() == 8 && (forall|i: int| 0 <= i < 8 ==> is_alphanumeric(#[trigger] random[i]))
                && r@ == socket_stamp(millis, random),
{
    let now = crate::clock::unix_millis_now() as u64;
    let random = random_alphanumeric(8);
    let r = socket_stamp_from(now, random.as_str());
    assert(r@ == socket_stamp(now as nat, random@));
    r
}

/// `chrono::Local::now()` moved `seconds` ahead, formatted as
/// `at %H:%M:%S`, or `None` when `TimeDelta::try_seconds` rejects the
/// amount or the date would leave chrono's range. The hour, minute and
/// second are the machine's local time: only the text's shape is stated
/// (chrono pads each field to two digits), and that amounts past
/// `i64::MAX / 1000` seconds either way are rejected. `Local::now` stops the
/// program on a clock set before 1970 or when the local offset cannot be
/// found, which no argument can rule out.
#[verifier::external_body]
fn local_time_after(seconds: i64) -> (r: Option<String>)
    ensures
        r matches Some(t) ==> t@.len() == 11 && t@.take(3) == "at "@ && t@[5] == ':' && t@[8] == ':',
        (seconds > i64::MAX / 1000 || seconds < -(i64::MAX / 1000)) ==> r is None,
{
    let delta = chrono::TimeDelta::try_seconds(seconds)?;
    let at = chrono::Local::now().checked_add_signed(delta)?;
    Some(at.format("at %H:%M:%S").to_string())
}

/// `s` read as a signed 64-bit number, as `s as i64` reads it: past
/// `i64::MAX` it wraps around to the negatives.
pub open spec fn as_signed(s: u64) -> int {
    if s <= i64::MAX { s as int } else { s - 0x1_0000_0000_0000_0000int }
}

/// `s` read as a signed number of seconds, as `s as i64` reads it: the
/// amount `format_timestamp` hands to chrono.
pub fn signed_seconds(s: u64) -> (r: i64)
    ensures
        r == as_signed(s),
{
    if s <= 9_223_372_036_854_775_807u64 {
        s as i64
    } else {
        let above: u64 = s - 9_223_372_036_854_775_808u64;
        i64::MIN + (above as i64)
    }
}

/// The local time `seconds_from_now` seconds ahead, as `at HH:MM:SS`; `None`
/// when chrono cannot represent that time, and always when the amount, read
/// as a signed number, is past `i64::MAX / 1000` seconds either way.
pub fn format_timestamp(seconds_from_now: u64) -> (r: Option<String>)
    ensures
        r matches Some(t) ==> t@.len() == 11 && t@.take(3) == "at "@,
        (as_signed(seconds_from_now) > i64::MAX / 1000 || as_signed(seconds_from_now) < -(i64::MAX / 1000))
            ==> r is None,
{
    local_time_after(signed_seconds(seconds_from_now))
}

/// `s` without its trailing `c`s.
pub open spec fn without_trailing(s: Seq<char>, c: char) -> Seq<char>
    decreases s.len(),
{
    if s.len() > 0 && s.last() == c { without_trailing(s.drop_last(), c) } else { s }
}

/// The cooldown a refusal such as `... on cooldown for 1929s` states, as
/// the result screens read it: the text after the first `for ` (up to a
/// second one, if any), without its trailing `s`s, as an unsigned number.
pub open spec fn stated_cooldown_spec(e: Seq<char>) -> Option<u64> {
    match find(e, "for "@) {
        None => None,
        Some(i) => {
            let rest = e.skip(i + 4);
            let piece = match find(rest, "for "@) {
                Some(j) => rest.take(j),
                None => rest,
            };
            parse_u64_spec(without_trailing(piece, 's'))
        },
    }
}

/// Reads the cooldown a refusal states.
pub fn stated_cooldown(error: &str) -> (r: Option<u64>)
    ensures
        r == stated_cooldown_spec(error@),
{
    proof {
        reveal_strlit("for ");
    }
    let e = chars_of(error);
    let pat = chars_of("for ");
    let total = e.len();
    match find_chars(&e, &pat, 0) {
        None => None,
        Some(i) => {
            proof {
                crate::text::lemma_find_from_bounds(e@, pat@, 0);
            }
            assert(i + 4 <= total);
            let rest = crate::text::sub_chars(&e, i + 4, e.len());
            assert(rest@ == e@.skip(i + 4));
            let end = match find_chars(&rest, &pat, 0) {
                Some(j) => {
                    proof {
                        crate::text::lemma_find_from_bounds(rest@, pat@, 0);
                    }
                    j
                },
                None => rest.len(),
            };
            let mut k = end;
            assert(rest@.take(end as int) == (match find(rest@, "for "@) {
                Some(j) => rest@.take(j),
                None => rest@,
            }));
            while k > 0 && rest[k - 1] == 's'
                invariant
                    k <= end <= rest@.len(),
                    without_trailing(rest@.take(end as int), 's') == without_trailing(rest@.take(k as int), 's'),
                decreases k,
            {
                assert(rest@.take(k as int).drop_last() == rest@.take(k - 1));
                k = k - 1;
            }
            parse_u64_chars(&rest, 0, k)
        },
    }
}

} // verus!
